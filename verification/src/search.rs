//! The first item of a sequence that passes a test.

use vstd::prelude::*;

verus! {

/// `i` is the position of the first item of `s` that passes `p`, or the
/// length of `s` if none does.
pub open spec fn is_first<T>(s: Seq<T>, p: spec_fn(T) -> bool, i: int) -> bool {
    &&& 0 <= i <= s.len()
    &&& forall|j: int| 0 <= j < i ==> !p(#[trigger] s[j])
    &&& (i == s.len() || p(s[i]))
}

/// Position of the first item of `s` that passes `p`, or the length of `s`
/// if none does.
pub open spec fn first<T>(s: Seq<T>, p: spec_fn(T) -> bool) -> int {
    choose|i: int| is_first(s, p, i)
}

/// Every sequence has such a position.
pub proof fn lemma_first_exists<T>(s: Seq<T>, p: spec_fn(T) -> bool)
    ensures
        is_first(s, p, first(s, p)),
    decreases s.len(),
{
    if s.len() == 0 {
        assert(is_first(s, p, 0));
    } else {
        let front = s.drop_last();
        lemma_first_exists(front, p);
        let k = first(front, p);
        if k < front.len() {
            assert(front[k] == s[k]);
            assert forall|j: int| 0 <= j < k implies !p(#[trigger] s[j]) by {
                assert(front[j] == s[j]);
            }
            assert(is_first(s, p, k));
        } else {
            assert forall|j: int| 0 <= j < k implies !p(#[trigger] s[j]) by {
                assert(front[j] == s[j]);
            }
            if p(s[k]) {
                assert(is_first(s, p, k));
            } else {
                assert(is_first(s, p, k + 1));
            }
        }
    }
}

/// There is only one such position.
pub proof fn lemma_first_unique<T>(s: Seq<T>, p: spec_fn(T) -> bool, i: int)
    requires
        is_first(s, p, i),
    ensures
        first(s, p) == i,
{
    let k = first(s, p);
    assert(is_first(s, p, k));
    if k < i {
        assert(!p(s[k]));
    }
    if i < k {
        assert(!p(s[i]));
    }
}

/// What the position says: an item there passes the test, none before it
/// does, and if it is the length then no item passes at all.
pub proof fn lemma_first<T>(s: Seq<T>, p: spec_fn(T) -> bool)
    ensures
        0 <= first(s, p) <= s.len(),
        first(s, p) < s.len() ==> p(s[first(s, p)]),
        forall|j: int| 0 <= j < first(s, p) ==> !p(#[trigger] s[j]),
        first(s, p) == s.len() ==> forall|j: int| 0 <= j < s.len() ==> !p(#[trigger] s[j]),
{
    lemma_first_exists(s, p);
}

} // verus!
