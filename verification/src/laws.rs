//! Laws of the container, stated over the logical sequences that the
//! operations' contracts speak of and proved once for all inputs.

use vstd::prelude::*;

use crate::vec_ptr::swapped;

verus! {

/// `base` after pushing the values of `vs` onto it, one after another, in
/// order.  `push` promises exactly that the logical sequence grows this way,
/// so this models any run of push operations.
pub open spec fn pushed_all<T>(base: Seq<T>, vs: Seq<T>) -> Seq<T>
    decreases vs.len(),
{
    if vs.len() == 0 {
        base
    } else {
        pushed_all(base.push(vs[0]), vs.drop_first())
    }
}

/// Law: pushing a run of values appends them, in order, behind what was
/// already there.
pub proof fn lemma_pushed_all_appends<T>(base: Seq<T>, vs: Seq<T>)
    ensures
        pushed_all(base, vs) == base + vs,
    decreases vs.len(),
{
    if vs.len() == 0 {
        assert(base + vs =~= base);
    } else {
        lemma_pushed_all_appends(base.push(vs[0]), vs.drop_first());
        assert(base.push(vs[0]) + vs.drop_first() =~= base + vs);
    }
}

/// Law: after any run of push operations onto an empty container, reading
/// position `i` gives the `i`-th pushed value, for every valid `i`.
pub proof fn lemma_pushes_then_get<T>(vs: Seq<T>, i: int)
    requires
        0 <= i < vs.len(),
    ensures
        pushed_all(Seq::<T>::empty(), vs)[i] == vs[i],
{
    lemma_pushed_all_appends(Seq::<T>::empty(), vs);
    assert(Seq::<T>::empty() + vs =~= vs);
}

/// Law: exchanging the same two positions twice restores the sequence, so a
/// repeated swap is an involution on the logical order.
pub proof fn lemma_swap_involution<T>(s: Seq<T>, i: int, j: int)
    requires
        0 <= i < s.len(),
        0 <= j < s.len(),
    ensures
        swapped(swapped(s, i, j), i, j) == s,
{
    assert(swapped(swapped(s, i, j), i, j) =~= s);
}

/// Law: a push followed by a read of the last position hands back the pushed
/// value, whatever the value and whatever was in the container before.
pub proof fn lemma_push_then_get_last<T>(s: Seq<T>, v: T)
    ensures
        s.push(v)[s.len() as int] == v,
{
}

} // verus!
