//! Lists of names, as rooms keep them.

use vstd::prelude::*;

verus! {

/// The texts of a list of strings.
pub open spec fn texts(v: Seq<String>) -> Seq<Seq<char>> {
    v.map_values(|s: String| s@)
}

/// The test that every name but `name` passes.
pub open spec fn other_than(name: Seq<char>) -> spec_fn(Seq<char>) -> bool {
    |n: Seq<char>| n != name
}

/// `list` without every occurrence of `name`.
pub open spec fn without(list: Seq<Seq<char>>, name: Seq<char>) -> Seq<Seq<char>> {
    list.filter(other_than(name))
}

/// What is left of a list after a name is struck out: the other names, each
/// where it was among them, and the struck name not at all.
pub proof fn lemma_without(list: Seq<Seq<char>>, name: Seq<char>)
    ensures
        !without(list, name).contains(name),
        forall|n: Seq<char>| n != name ==> (without(list, name).contains(n) <==> list.contains(n)),
        list.no_duplicates() ==> without(list, name).no_duplicates(),
        without(list, name).len() <= list.len(),
        !list.contains(name) ==> without(list, name) == list,
    decreases list.len(),
{
    let keep = other_than(name);
    let w = without(list, name);
    list.lemma_filter_len(keep);
    if w.contains(name) {
        let j = choose|j: int| 0 <= j < w.len() && w[j] == name;
        list.lemma_filter_pred(keep, j);
    }
    assert forall|n: Seq<char>| n != name implies (w.contains(n) <==> list.contains(n)) by {
        if list.contains(n) {
            let i = choose|i: int| 0 <= i < list.len() && list[i] == n;
            list.lemma_filter_contains(keep, i);
        }
        if w.contains(n) {
            list.lemma_filter_contains_rev(keep, n);
        }
    }
    if list.len() == 0 {
        reveal(Seq::filter);
        assert(w =~= list);
    } else {
        let front = list.drop_last();
        let last = list.last();
        let wf = without(front, name);
        lemma_without(front, name);
        assert(list =~= front.push(last));
        Seq::lemma_filter_push(front, last, keep);
        if list.no_duplicates() {
            assert(front.no_duplicates());
            if last != name {
                if front.contains(last) {
                    let i = choose|i: int| 0 <= i < front.len() && front[i] == last;
                    assert(list[i] == list[list.len() - 1]);
                }
                assert(!wf.contains(last));
                assert(w == wf.push(last));
                assert forall|i: int, j: int| 0 <= i < w.len() && 0 <= j < w.len() && i != j implies w[i]
                    != w[j] by {
                    if i < wf.len() && j < wf.len() {
                        assert(wf[i] != wf[j]);
                    } else if i < wf.len() {
                        assert(wf.contains(wf[i]));
                    } else {
                        assert(wf.contains(wf[j]));
                    }
                }
            }
        }
        if !list.contains(name) {
            if front.contains(name) {
                let i = choose|i: int| 0 <= i < front.len() && front[i] == name;
                assert(list[i] == name);
            }
            if last == name {
                assert(list[list.len() - 1] == name);
            }
            assert(w =~= list);
        }
    }
}

/// Whether `name` is on the list.
pub fn contains_name(list: &Vec<String>, name: &String) -> (b: bool)
    ensures
        b == texts(list@).contains(name@),
{
    let mut i: usize = 0;
    while i < list.len()
        invariant
            i <= list@.len(),
            forall|j: int| 0 <= j < i ==> texts(list@)[j] != name@,
        decreases list@.len() - i,
    {
        if list[i] == *name {
            assert(texts(list@)[i as int] == name@);
            return true;
        }
        i += 1;
    }
    false
}

/// A copy of the list.
pub fn clone_names(list: &Vec<String>) -> (out: Vec<String>)
    ensures
        texts(out@) == texts(list@),
{
    let mut out: Vec<String> = Vec::new();
    let mut i: usize = 0;
    while i < list.len()
        invariant
            i <= list@.len(),
            out@.len() == i,
            forall|j: int| 0 <= j < i ==> out@[j]@ == list@[j]@,
        decreases list@.len() - i,
    {
        out.push(list[i].clone());
        i += 1;
    }
    assert(texts(out@) =~= texts(list@));
    out
}

/// A copy of the list without every occurrence of `name`.
pub fn without_name(list: &Vec<String>, name: &String) -> (out: Vec<String>)
    ensures
        texts(out@) == without(texts(list@), name@),
{
    let ghost keep = other_than(name@);
    let mut out: Vec<String> = Vec::new();
    let mut i: usize = 0;
    assert(texts(list@).subrange(0, 0) =~= Seq::<Seq<char>>::empty());
    proof {
        reveal(Seq::filter);
    }
    while i < list.len()
        invariant
            i <= list@.len(),
            keep == other_than(name@),
            texts(out@) == texts(list@).subrange(0, i as int).filter(keep),
        decreases list@.len() - i,
    {
        let ghost before = texts(list@).subrange(0, i as int);
        let ghost this = texts(list@)[i as int];
        assert(texts(list@).subrange(0, i + 1) =~= before.push(this));
        proof {
            Seq::lemma_filter_push(before, this, keep);
        }
        if !(list[i] == *name) {
            out.push(list[i].clone());
            assert(texts(out@) =~= before.filter(keep).push(this));
        }
        i += 1;
    }
    assert(texts(list@).subrange(0, i as int) =~= texts(list@));
    out
}

} // verus!
