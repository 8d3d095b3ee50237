//! Laws that relate the operations of `VecBool`, stated over its view and the spec
//! functions that the operations' contracts use.

use vstd::prelude::*;

use crate::vecbool::{element_at, VecBool};

verus! {

/// A push is read back at the index it went to, and every earlier index still reads what
/// it read before; by induction, a run of pushes reads back value for value.
pub proof fn lemma_push_then_get(s: Seq<bool>, v: bool, i: int)
    requires
        0 <= i <= s.len(),
    ensures
        element_at(s.push(v), i) == if i == s.len() {
            Some(v)
        } else {
            element_at(s, i)
        },
{
}

/// In every well-formed state the length is at most the capacity, and the capacity is the
/// chunk count times the chunk width.
pub proof fn lemma_len_within_capacity(v: &VecBool)
    requires
        v.wf(),
    ensures
        v@.len() <= v.spec_capacity(),
        v.spec_capacity() == v.chunk_count() * 8,
{
    v.lemma_wf();
}

/// The contents after pushing the values of `vs` one by one, in order, onto `s`.
pub open spec fn pushed_all(s: Seq<bool>, vs: Seq<bool>) -> Seq<bool>
    decreases vs.len(),
{
    if vs.len() == 0 {
        s
    } else {
        pushed_all(s, vs.drop_last()).push(vs.last())
    }
}

/// After a run of pushes of `vs` onto `s`, index `s.len() + k` reads `vs[k]`, and every
/// index below `s.len()` reads what it read before.
pub proof fn lemma_pushes_then_get(s: Seq<bool>, vs: Seq<bool>)
    ensures
        pushed_all(s, vs) == s + vs,
        forall|k: int| 0 <= k < vs.len() ==> element_at(pushed_all(s, vs), s.len() + k)
            == Some(#[trigger] vs[k]),
        forall|i: int| 0 <= i < s.len() ==> #[trigger] element_at(pushed_all(s, vs), i)
            == element_at(s, i),
    decreases vs.len(),
{
    if vs.len() > 0 {
        lemma_pushes_then_get(s, vs.drop_last());
        assert(s + vs =~= (s + vs.drop_last()).push(vs.last()));
    } else {
        assert(s + vs =~= s);
    }
}

/// A pop right after a push returns the pushed value and leaves the previous contents,
/// and so the previous length.
pub proof fn lemma_push_then_pop(s: Seq<bool>, v: bool)
    ensures
        s.push(v).len() > 0,
        s.push(v).last() == v,
        s.push(v).drop_last() == s,
        s.push(v).drop_last().len() == s.len(),
{
    assert(s.push(v).drop_last() =~= s);
}

/// Reading at or past the length gives `None`.
pub proof fn lemma_get_out_of_range(s: Seq<bool>, i: int)
    requires
        i >= s.len(),
    ensures
        element_at(s, i) is None,
{
}

/// The items of an iteration over contents `s` are exactly `s.len()` in number, and item
/// `i` is what reading index `i` gives.
pub proof fn lemma_iteration_matches_get(s: Seq<bool>, items: Seq<bool>)
    requires
        items == s,
    ensures
        items.len() == s.len(),
        forall|i: int| 0 <= i < items.len() ==> element_at(s, i) == Some(#[trigger] items[i]),
{
}

} // verus!
