//! Iteration over the container: a borrowing iterator that resolves each
//! handle to a read-only view of its value, and an owning iterator that
//! consumes the container and hands the values out.  Both walk the logical
//! order; the borrowing iterator also steps from the back, for reversed
//! traversal.
//!
//! The borrowing iterator holds the container by shared reference, so the
//! container cannot be mutated while an iteration is in progress.

use vstd::prelude::*;

use crate::vec_ptr::VecPtr;

verus! {

/// A borrowing iterator: a front and a back cursor over the container's
/// logical positions.  `next` yields the front of what remains, `next_back`
/// the back, until the two cursors meet.
pub struct VecPtrIter<'a, T> {
    vp: &'a VecPtr<T>,
    front: usize,
    back: usize,
}

impl<'a, T> VecPtrIter<'a, T> {
    /// Well-formedness: the container is well formed and the cursors bound a
    /// sub-range of its logical positions.
    pub closed spec fn wf(self) -> bool {
        &&& self.vp.wf()
        &&& self.front <= self.back <= self.vp@.len()
    }

    /// The values not yet yielded, in logical order.
    pub closed spec fn remaining(self) -> Seq<T> {
        self.vp@.subrange(self.front as int, self.back as int)
    }

    /// Starts a fresh iteration over all of `vp`.
    pub(crate) fn new(vp: &'a VecPtr<T>) -> (it: Self)
        requires
            vp.wf(),
        ensures
            it.wf(),
            it.remaining() == vp@,
    {
        let it = VecPtrIter { vp, front: 0, back: vp.len() };
        proof {
            assert(it.remaining() =~= vp@);
        }
        it
    }

    /// Yields the first value not yet yielded, or `None` when the iteration
    /// is exhausted.
    pub fn next(&mut self) -> (r: Option<&'a T>)
        requires
            old(self).wf(),
        ensures
            final(self).wf(),
            old(self).remaining().len() == 0 ==> r.is_none() && *final(self) == *old(self),
            old(self).remaining().len() > 0 ==> r.is_some() && *r.unwrap() == old(self).remaining()[0] && final(self).remaining() == old(self).remaining().drop_first(),
    {
        if self.front >= self.back {
            return None;
        }
        let r = self.vp.get(self.front);
        self.front += 1;
        proof {
            assert(self.remaining() =~= old(self).remaining().drop_first());
        }
        r
    }

    /// Yields the last value not yet yielded, or `None` when the iteration
    /// is exhausted: stepping only this end walks the container in reverse.
    pub fn next_back(&mut self) -> (r: Option<&'a T>)
        requires
            old(self).wf(),
        ensures
            final(self).wf(),
            old(self).remaining().len() == 0 ==> r.is_none() && *final(self) == *old(self),
            old(self).remaining().len() > 0 ==> r.is_some() && *r.unwrap() == old(self).remaining().last() && final(self).remaining() == old(self).remaining().drop_last(),
    {
        if self.front >= self.back {
            return None;
        }
        let r = self.vp.get(self.back - 1);
        self.back -= 1;
        proof {
            assert(self.remaining() =~= old(self).remaining().drop_last());
        }
        r
    }
}

/// An owning iterator: holds the consumed container and hands its values out
/// front to back.
pub struct VecPtrIntoIter<T> {
    vp: VecPtr<T>,
}

impl<T> VecPtrIntoIter<T> {
    /// Well-formedness: the container still to be drained is well formed.
    pub closed spec fn wf(self) -> bool {
        self.vp.wf()
    }

    /// The values not yet yielded, in logical order.
    pub closed spec fn remaining(self) -> Seq<T> {
        self.vp@
    }

    /// Takes ownership of `vp` and starts the iteration at its front.
    pub(crate) fn new(vp: VecPtr<T>) -> (it: Self)
        requires
            vp.wf(),
        ensures
            it.wf(),
            it.remaining() == vp@,
    {
        VecPtrIntoIter { vp }
    }

    /// Yields ownership of the first value not yet yielded, or `None` when
    /// the iteration is exhausted.
    pub fn next(&mut self) -> (r: Option<T>)
        requires
            old(self).wf(),
        ensures
            final(self).wf(),
            old(self).remaining().len() == 0 ==> r == None::<T> && *final(self) == *old(self),
            old(self).remaining().len() > 0 ==> r == Some(old(self).remaining()[0]) && final(self).remaining() == old(self).remaining().drop_first(),
    {
        if self.vp.is_empty() {
            return None;
        }
        let v = self.vp.take_at(0);
        proof {
            assert(self.remaining() =~= old(self).remaining().drop_first());
        }
        Some(v)
    }
}

} // verus!
