//! What the game loop asks its host to do: write a frame to a connection,
//! or close one.

use vstd::prelude::*;

verus! {

/// One request of the game loop. The host carries them out in the order in
/// which they were made.
#[derive(Debug, PartialEq, Eq)]
pub enum Action {
    /// Write `bytes`, one whole frame, to connection `to`.
    Send { to: u64, bytes: Vec<u8> },
    /// Close both halves of connection `conn`.
    Close { conn: u64 },
}

/// What an action is, as plain values.
pub enum ActionView {
    Send { to: u64, bytes: Seq<u8> },
    Close { conn: u64 },
}

impl View for Action {
    type V = ActionView;

    open spec fn view(&self) -> ActionView {
        match *self {
            Action::Send { to, bytes } => ActionView::Send { to, bytes: bytes@ },
            Action::Close { conn } => ActionView::Close { conn },
        }
    }
}

/// What a list of actions is, as plain values.
pub open spec fn action_views(v: Seq<Action>) -> Seq<ActionView> {
    v.map_values(|a: Action| a@)
}

/// The actions that the items of `items` give rise to, one item after the
/// other, where `each` says what a single item gives rise to.
pub open spec fn gather<T>(items: Seq<T>, each: spec_fn(T) -> Seq<ActionView>) -> Seq<ActionView>
    decreases items.len(),
{
    if items.len() == 0 {
        Seq::empty()
    } else {
        gather(items.drop_last(), each) + each(items.last())
    }
}

/// One more item adds its own actions behind those of the others.
pub proof fn lemma_gather_push<T>(items: Seq<T>, item: T, each: spec_fn(T) -> Seq<ActionView>)
    ensures
        gather(items.push(item), each) == gather(items, each) + each(item),
{
    assert(items.push(item).drop_last() =~= items);
}

/// The first `i + 1` items give rise to what the first `i` do, and then to
/// what item `i` does.
pub proof fn lemma_gather_step<T>(items: Seq<T>, i: int, each: spec_fn(T) -> Seq<ActionView>)
    requires
        0 <= i < items.len(),
    ensures
        gather(items.subrange(0, i + 1), each) == gather(items.subrange(0, i), each) + each(
            items[i],
        ),
{
    assert(items.subrange(0, i + 1) =~= items.subrange(0, i).push(items[i]));
    lemma_gather_push(items.subrange(0, i), items[i], each);
}

/// What holds of every action that a single item gives rise to holds of
/// every action of the whole.
pub proof fn lemma_gather_all<T>(
    items: Seq<T>,
    each: spec_fn(T) -> Seq<ActionView>,
    good: spec_fn(ActionView) -> bool,
)
    requires
        forall|i: int, k: int|
            0 <= i < items.len() && 0 <= k < each(items[i]).len() ==> good(
                #[trigger] each(items[i])[k],
            ),
    ensures
        forall|k: int| 0 <= k < gather(items, each).len() ==> good(#[trigger] gather(items, each)[k]),
    decreases items.len(),
{
    if items.len() > 0 {
        let front = items.drop_last();
        assert forall|i: int, k: int| 0 <= i < front.len() && 0 <= k < each(front[i]).len() implies good(
            #[trigger] each(front[i])[k],
        ) by {
            assert(front[i] == items[i]);
        }
        lemma_gather_all(front, each, good);
        let g = gather(front, each);
        let e = each(items.last());
        assert forall|k: int| 0 <= k < gather(items, each).len() implies good(
            #[trigger] gather(items, each)[k],
        ) by {
            if k < g.len() {
                assert(gather(items, each)[k] == g[k]);
            } else {
                assert(gather(items, each)[k] == e[k - g.len()]);
                assert(e == each(items[items.len() - 1]));
            }
        }
    }
}

/// No requests yet.
pub fn no_actions() -> (out: Vec<Action>)
    ensures
        action_views(out@) == Seq::<ActionView>::empty(),
{
    let out: Vec<Action> = Vec::new();
    assert(action_views(out@) =~= Seq::<ActionView>::empty());
    out
}

/// Appends the request to write `bytes` to connection `to`.
pub fn send(out: &mut Vec<Action>, to: u64, bytes: Vec<u8>)
    ensures
        action_views(final(out)@) == action_views(old(out)@).push(
            ActionView::Send { to, bytes: bytes@ },
        ),
{
    out.push(Action::Send { to, bytes });
    assert(action_views(out@) =~= action_views(old(out)@).push(
        ActionView::Send { to, bytes: bytes@ },
    ));
}

/// Appends the request to close connection `conn`.
pub fn close(out: &mut Vec<Action>, conn: u64)
    ensures
        action_views(final(out)@) == action_views(old(out)@).push(ActionView::Close { conn }),
{
    out.push(Action::Close { conn });
    assert(action_views(out@) =~= action_views(old(out)@).push(ActionView::Close { conn }));
}

} // verus!
