//! The container itself: values live in a backing storage vector, while a
//! vector of handles (indices into that storage) defines the logical order.
//! Swapping two logical positions exchanges the two handles only; the stored
//! values stay where they are.
//!
//! Storage is kept compact: removing a value closes the gap in storage and
//! rewrites every handle that pointed behind it, so no handle ever refers to
//! a freed or relocated slot.

use vstd::prelude::*;

verus! {

/// Error reported by the checked operations when a position argument does not
/// satisfy the operation's range pre-condition.
#[derive(Debug, Clone, Copy, PartialEq, Eq, Structural)]
pub enum VecPtrError {
    IndexOutOfRange,
}

/// A growable sequence container with a layer of indirection between logical
/// positions and stored values.
///
/// `ptrs` is the index layer: `ptrs[k]` is the handle of logical position
/// `k`, naming the slot of `raw_vals` that holds the value of that position.
/// `raw_vals` owns the values; its internal order is free to diverge from the
/// logical order.
#[derive(Debug, Clone)]
pub struct VecPtr<T> {
    ptrs: Vec<usize>,
    raw_vals: Vec<T>,
}

impl<T> VecPtr<T> {
    /// The logical sequence described by a handle layer `ptrs` over a storage
    /// layer `vals`.
    spec fn seq_of(ptrs: Seq<usize>, vals: Seq<T>) -> Seq<T> {
        Seq::new(ptrs.len(), |k: int| vals[ptrs[k] as int])
    }

    /// Well-formedness: index and storage are in lock-step (same length),
    /// every handle refers to a live storage slot, and distinct logical
    /// positions resolve to distinct slots.
    pub closed spec fn wf(self) -> bool {
        &&& self.ptrs@.len() == self.raw_vals@.len()
        &&& forall|k: int|
            0 <= k < self.ptrs@.len() ==> (#[trigger] self.ptrs@[k]) < self.raw_vals@.len()
        &&& forall|k1: int, k2: int|
            0 <= k1 < self.ptrs@.len() && 0 <= k2 < self.ptrs@.len() && k1 != k2 ==> #[trigger]
                self.ptrs@[k1] != #[trigger] self.ptrs@[k2]
    }

    /// Creates an empty container.
    pub fn new() -> (s: Self)
        ensures
            s.wf(),
            s@ == Seq::<T>::empty(),
    {
        let s = VecPtr { ptrs: Vec::new(), raw_vals: Vec::new() };
        proof {
            assert(s@ =~= Seq::<T>::empty());
        }
        s
    }

    /// Creates an empty container whose two layers are pre-sized to hold
    /// `size` elements without reallocating.
    pub fn with_capacity(size: usize) -> (s: Self)
        ensures
            s.wf(),
            s@ == Seq::<T>::empty(),
    {
        let s = VecPtr { ptrs: Vec::with_capacity(size), raw_vals: Vec::with_capacity(size) };
        proof {
            assert(s@ =~= Seq::<T>::empty());
        }
        s
    }

    /// The number of logical positions.
    pub fn len(&self) -> (n: usize)
        ensures
            n == self@.len(),
    {
        self.ptrs.len()
    }

    /// Whether the container holds no values.
    pub fn is_empty(&self) -> (b: bool)
        ensures
            b <==> self@.len() == 0,
    {
        self.ptrs.is_empty()
    }

    /// Appends `v`: the value goes to the end of storage and a handle for its
    /// slot becomes the new last logical position.
    pub fn push(&mut self, v: T)
        requires
            old(self).wf(),
        ensures
            final(self).wf(),
            final(self)@ == old(self)@.push(v),
    {
        let h = self.raw_vals.len();
        self.raw_vals.push(v);
        self.ptrs.push(h);
        proof {
            assert(self@ =~= old(self)@.push(v));
        }
    }

    /// Inserts `v` at logical position `idx`, shifting later handles right.
    /// The value itself is appended at the end of storage, so storage order
    /// diverges from logical order; only the handle sits at position `idx`.
    /// Rejects `idx` beyond the current length and then leaves the container
    /// unchanged.
    pub fn insert(&mut self, idx: usize, v: T) -> (r: Result<(), VecPtrError>)
        requires
            old(self).wf(),
        ensures
            final(self).wf(),
            idx <= old(self)@.len() ==> r == Ok::<(), VecPtrError>(()),
            idx <= old(self)@.len() ==> final(self)@ == old(self)@.insert(idx as int, v),
            idx > old(self)@.len() ==> r == Err::<(), VecPtrError>(VecPtrError::IndexOutOfRange),
            idx > old(self)@.len() ==> *final(self) == *old(self),
    {
        if idx > self.ptrs.len() {
            return Err(VecPtrError::IndexOutOfRange);
        }
        let h = self.raw_vals.len();
        self.raw_vals.push(v);
        self.ptrs.insert(idx, h);
        proof {
            old(self).ptrs@.insert_ensures(idx as int, h);
            old(self)@.insert_ensures(idx as int, v);
            assert forall|j: int| 0 <= j < self.ptrs@.len() implies #[trigger] self.ptrs@[j]
                < self.raw_vals@.len() by {
                if j > idx {
                    assert(self.ptrs@[j] == old(self).ptrs@[j - 1]);
                }
            }
            assert forall|j1: int, j2: int|
                0 <= j1 < self.ptrs@.len() && 0 <= j2 < self.ptrs@.len() && j1 != j2 implies #[trigger]
                self.ptrs@[j1] != #[trigger] self.ptrs@[j2] by {
                if j1 > idx {
                    assert(self.ptrs@[j1] == old(self).ptrs@[j1 - 1]);
                }
                if j2 > idx {
                    assert(self.ptrs@[j2] == old(self).ptrs@[j2 - 1]);
                }
            }
            assert forall|j: int| 0 <= j < self@.len() implies self@[j] == old(self)@.insert(
                idx as int,
                v,
            )[j] by {
                if j > idx {
                    assert(self.ptrs@[j] == old(self).ptrs@[j - 1]);
                    assert(old(self)@.insert(idx as int, v)[j] == old(self)@[j - 1]);
                }
            }
            assert(self@ =~= old(self)@.insert(idx as int, v));
        }
        Ok(())
    }

    /// Removes the value at logical position `idx` and hands it back.
    ///
    /// The handle leaves the index layer, the value leaves storage, and every
    /// handle that pointed behind the vacated slot is rewritten to the slot's
    /// new name, so all surviving handles stay valid.
    pub(crate) fn take_at(&mut self, idx: usize) -> (v: T)
        requires
            old(self).wf(),
            idx < old(self)@.len(),
        ensures
            final(self).wf(),
            final(self)@ == old(self)@.remove(idx as int),
            v == old(self)@[idx as int],
    {
        let h = self.ptrs.remove(idx);
        let v = self.raw_vals.remove(h);
        let ghost p0 = self.ptrs@;
        let ghost r0 = self.raw_vals@;
        let ghost n = old(self)@.len();
        proof {
            old(self).ptrs@.remove_ensures(idx as int);
            old(self).raw_vals@.remove_ensures(h as int);
            assert forall|j: int| 0 <= j < p0.len() implies #[trigger] p0[j] < n && p0[j] != h by {
                if j < idx {
                    assert(p0[j] == old(self).ptrs@[j]);
                } else {
                    assert(p0[j] == old(self).ptrs@[j + 1]);
                }
            }
        }
        let mut k: usize = 0;
        while k < self.ptrs.len()
            invariant
                self.raw_vals@ == r0,
                self.ptrs@.len() == p0.len(),
                k <= p0.len(),
                forall|j: int| 0 <= j < p0.len() ==> #[trigger] p0[j] < n && p0[j] != h,
                h < n,
                forall|j: int| k <= j < p0.len() ==> self.ptrs@[j] == p0[j],
                forall|j: int|
                    0 <= j < k ==> #[trigger] self.ptrs@[j] == (if p0[j] > h {
                        p0[j] - 1
                    } else {
                        p0[j] as int
                    }),
            decreases p0.len() - k,
        {
            let hk = self.ptrs[k];
            if hk > h {
                self.ptrs.set(k, hk - 1);
            }
            k += 1;
        }
        proof {
            old(self)@.remove_ensures(idx as int);
            assert forall|j: int| 0 <= j < self.ptrs@.len() implies #[trigger] self.ptrs@[j]
                < self.raw_vals@.len() by {
                assert(p0[j] < n && p0[j] != h);
            }
            assert forall|j1: int, j2: int|
                0 <= j1 < self.ptrs@.len() && 0 <= j2 < self.ptrs@.len() && j1 != j2 implies #[trigger]
                self.ptrs@[j1] != #[trigger] self.ptrs@[j2] by {
                assert(p0[j1] < n && p0[j1] != h);
                assert(p0[j2] < n && p0[j2] != h);
            }
            assert forall|j: int| 0 <= j < self@.len() implies self@[j] == old(self)@.remove(
                idx as int,
            )[j] by {
                assert(p0[j] < n && p0[j] != h);
                if j < idx {
                    assert(p0[j] == old(self).ptrs@[j]);
                } else {
                    assert(p0[j] == old(self).ptrs@[j + 1]);
                }
                if p0[j] > h {
                    assert(r0[p0[j] - 1] == old(self).raw_vals@[p0[j] as int]);
                } else {
                    assert(r0[p0[j] as int] == old(self).raw_vals@[p0[j] as int]);
                }
            }
            assert(self@ =~= old(self)@.remove(idx as int));
        }
        v
    }

    /// Removes the value at logical position `idx`.  Positions before `idx`
    /// keep their values; positions after it shift down by one and keep
    /// theirs.  Rejects an out-of-range `idx` and then leaves the container
    /// unchanged.
    pub fn remove(&mut self, idx: usize) -> (r: Result<(), VecPtrError>)
        requires
            old(self).wf(),
        ensures
            final(self).wf(),
            idx < old(self)@.len() ==> r == Ok::<(), VecPtrError>(()),
            idx < old(self)@.len() ==> final(self)@ == old(self)@.remove(idx as int),
            idx < old(self)@.len() ==> final(self)@.len() == old(self)@.len() - 1,
            forall|j: int|
                idx < old(self)@.len() && 0 <= j < idx
                    ==> #[trigger] final(self)@[j] == old(self)@[j],
            forall|j: int|
                idx < old(self)@.len() && idx <= j < old(self)@.len() - 1
                    ==> #[trigger] final(self)@[j] == old(self)@[j + 1],
            idx >= old(self)@.len() ==> r == Err::<(), VecPtrError>(VecPtrError::IndexOutOfRange),
            idx >= old(self)@.len() ==> *final(self) == *old(self),
    {
        if idx >= self.ptrs.len() {
            return Err(VecPtrError::IndexOutOfRange);
        }
        let _ = self.take_at(idx);
        proof {
            old(self)@.remove_ensures(idx as int);
        }
        Ok(())
    }

    /// Removes and returns the value at the last logical position, or `None`
    /// on an empty container.
    pub fn pop(&mut self) -> (r: Option<T>)
        requires
            old(self).wf(),
        ensures
            final(self).wf(),
            old(self)@.len() > 0 ==> r == Some(old(self)@.last()),
            old(self)@.len() > 0 ==> final(self)@ == old(self)@.drop_last(),
            old(self)@.len() == 0 ==> r == None::<T>,
            old(self)@.len() == 0 ==> *final(self) == *old(self),
    {
        if self.ptrs.is_empty() {
            return None;
        }
        let idx = self.ptrs.len() - 1;
        let v = self.take_at(idx);
        proof {
            assert(old(self)@.remove(old(self)@.len() - 1) =~= old(self)@.drop_last());
        }
        Some(v)
    }

    /// Exchanges the handles of logical positions `idx_1` and `idx_2`; no
    /// value in storage moves.  Every other position keeps its value.
    /// Rejects either index out of range and then leaves the container
    /// unchanged.
    pub fn swap(&mut self, idx_1: usize, idx_2: usize) -> (r: Result<(), VecPtrError>)
        requires
            old(self).wf(),
        ensures
            final(self).wf(),
            idx_1 < old(self)@.len() && idx_2 < old(self)@.len() ==> r == Ok::<(), VecPtrError>(()),
            idx_1 < old(self)@.len() && idx_2 < old(self)@.len() ==> final(self)@ == swapped(
                old(self)@,
                idx_1 as int,
                idx_2 as int,
            ),
            idx_1 < old(self)@.len() && idx_2 < old(self)@.len() ==> final(self)@[idx_1 as int]
                == old(self)@[idx_2 as int] && final(self)@[idx_2 as int] == old(self)@[idx_1 as int],
            forall|j: int|
                idx_1 < old(self)@.len() && idx_2 < old(self)@.len() && 0 <= j < old(self)@.len()
                    && j != idx_1 && j != idx_2 ==> #[trigger] final(self)@[j] == old(self)@[j],
            !(idx_1 < old(self)@.len() && idx_2 < old(self)@.len())
                ==> r == Err::<(), VecPtrError>(VecPtrError::IndexOutOfRange),
            !(idx_1 < old(self)@.len() && idx_2 < old(self)@.len()) ==> *final(self) == *old(self),
    {
        if idx_1 >= self.ptrs.len() || idx_2 >= self.ptrs.len() {
            return Err(VecPtrError::IndexOutOfRange);
        }
        let h1 = self.ptrs[idx_1];
        let h2 = self.ptrs[idx_2];
        self.ptrs.set(idx_1, h2);
        self.ptrs.set(idx_2, h1);
        proof {
            assert(self@ =~= swapped(old(self)@, idx_1 as int, idx_2 as int));
        }
        Ok(())
    }

    /// Overwrites, in place, the value that logical position `idx`'s handle
    /// refers to; the index layer does not change and no other position's
    /// value does either.  Rejects an out-of-range `idx` and then leaves the
    /// container unchanged.
    pub fn update(&mut self, idx: usize, new_v: T) -> (r: Result<(), VecPtrError>)
        requires
            old(self).wf(),
        ensures
            final(self).wf(),
            idx < old(self)@.len() ==> r == Ok::<(), VecPtrError>(()),
            idx < old(self)@.len() ==> final(self)@ == old(self)@.update(idx as int, new_v),
            idx >= old(self)@.len() ==> r == Err::<(), VecPtrError>(VecPtrError::IndexOutOfRange),
            idx >= old(self)@.len() ==> *final(self) == *old(self),
    {
        if idx >= self.ptrs.len() {
            return Err(VecPtrError::IndexOutOfRange);
        }
        let h = self.ptrs[idx];
        self.raw_vals.set(h, new_v);
        proof {
            assert(self@ =~= old(self)@.update(idx as int, new_v));
        }
        Ok(())
    }

    /// Resolves logical position `idx` to a read-only view of its value, or
    /// `None` when `idx` is out of range.
    pub fn get(&self, idx: usize) -> (r: Option<&T>)
        requires
            self.wf(),
        ensures
            match r {
                Some(x) => idx < self@.len() && *x == self@[idx as int],
                None => idx >= self@.len(),
            },
    {
        if idx >= self.ptrs.len() {
            return None;
        }
        let h = self.ptrs[idx];
        Some(&self.raw_vals[h])
    }

    /// Unchecked array-style access for callers who have already validated
    /// the position: out of range is excluded by contract rather than
    /// reported.
    pub fn index(&self, idx: usize) -> (r: &T)
        requires
            self.wf(),
            idx < self@.len(),
        ensures
            *r == self@[idx as int],
    {
        let h = self.ptrs[idx];
        &self.raw_vals[h]
    }

    /// Resolves logical position `idx` to an exclusive-write view of its
    /// value, or `None` when `idx` is out of range.  Whatever the caller
    /// writes through the reference becomes the value of position `idx`; no
    /// other position changes.
    pub fn get_mut(&mut self, idx: usize) -> (r: Option<&mut T>)
        requires
            old(self).wf(),
        ensures
            final(self).wf(),
            idx >= old(self)@.len() ==> r.is_none() && *final(self) == *old(self),
            idx < old(self)@.len() ==> r.is_some() && *r.unwrap() == old(self)@[idx as int]
                && final(self)@ == old(self)@.update(idx as int, *final(r.unwrap())),
    {
        if idx >= self.ptrs.len() {
            return None;
        }
        let h = self.ptrs[idx];
        proof {
            assert forall|x: T|
                #[trigger] VecPtr::seq_of(self.ptrs@, self.raw_vals@.update(h as int, x))
                    == self@.update(idx as int, x) by {
                assert(VecPtr::seq_of(self.ptrs@, self.raw_vals@.update(h as int, x)) =~= self@
                    .update(idx as int, x));
            }
        }
        Some(&mut self.raw_vals[h])
    }

    /// Builds a container from the values of `vals`, kept in their order:
    /// the function form of a container literal written as a comma-separated
    /// list of values.
    pub fn from_vec(vals: Vec<T>) -> (s: Self)
        ensures
            s.wf(),
            s@ == vals@,
    {
        let n = vals.len();
        let mut ptrs: Vec<usize> = Vec::with_capacity(n);
        let mut i: usize = 0;
        while i < n
            invariant
                i <= n,
                ptrs@.len() == i,
                forall|j: int| 0 <= j < i ==> #[trigger] ptrs@[j] == j,
            decreases n - i,
        {
            ptrs.push(i);
            i += 1;
        }
        let s = VecPtr { ptrs, raw_vals: vals };
        proof {
            assert(s@ =~= vals@);
        }
        s
    }

    /// Builds a container holding `count` clones of `v`: the function form
    /// of a container literal written as a value and a repeat count.
    pub fn repeat(v: T, count: usize) -> (s: Self) where T: Clone
        ensures
            s.wf(),
            s@.len() == count,
            forall|j: int| 0 <= j < count ==> cloned(v, #[trigger] s@[j]),
    {
        let mut s = VecPtr::with_capacity(count);
        let mut i: usize = 0;
        while i < count
            invariant
                i <= count,
                s.wf(),
                s@.len() == i,
                forall|j: int| 0 <= j < i ==> cloned(v, #[trigger] s@[j]),
            decreases count - i,
        {
            s.push(v.clone());
            i += 1;
        }
        s
    }

    /// A borrowing iterator over the logical positions, front to back; its
    /// back end also steps, for walking the container in reverse.
    pub fn iter(&self) -> (it: crate::iter::VecPtrIter<'_, T>)
        requires
            self.wf(),
        ensures
            it.wf(),
            it.remaining() == self@,
    {
        crate::iter::VecPtrIter::new(self)
    }

    /// An owning iterator over the logical positions, front to back; the
    /// container is consumed and its values are handed out one by one.
    pub fn into_iter(self) -> (it: crate::iter::VecPtrIntoIter<T>)
        requires
            self.wf(),
        ensures
            it.wf(),
            it.remaining() == self@,
    {
        crate::iter::VecPtrIntoIter::new(self)
    }
}

/// `s` with the values of positions `i` and `j` exchanged.
pub open spec fn swapped<T>(s: Seq<T>, i: int, j: int) -> Seq<T>
    recommends
        0 <= i < s.len(),
        0 <= j < s.len(),
{
    s.update(i, s[j]).update(j, s[i])
}

impl<T> View for VecPtr<T> {
    type V = Seq<T>;

    /// The externally observed sequence: logical position `k` holds the value
    /// in the storage slot its handle names.
    closed spec fn view(&self) -> Seq<T> {
        VecPtr::seq_of(self.ptrs@, self.raw_vals@)
    }
}

impl<T> Default for VecPtr<T> {
    /// Same as `new`: an empty container.
    fn default() -> (s: Self)
        ensures
            s.wf(),
            s@ == Seq::<T>::empty(),
    {
        VecPtr::new()
    }
}

} // verus!
