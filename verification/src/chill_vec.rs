//! A growable, contiguous array with an explicit length and capacity and a
//! deliberate growth policy: geometric growth with factor 1.5 and a minimum
//! first allocation, so that repeated appends cost amortized constant time.
//!
//! The capacity is bounded by the largest single allocation the platform can
//! address (`isize::MAX` bytes; elements occupy at least one byte). Inputs
//! that would push a request past that bound are excluded by the contracts:
//! within them, every operation is total.

use vstd::prelude::*;

verus! {

/// A growable array with explicit length and capacity.
///
/// The capacity records how many elements the array has room for before it
/// must grow again; it never exceeds `isize::MAX` and never decreases except
/// through [`ChillVec::shrink_to_fit`].
#[derive(Debug)]
pub struct ChillVec<T> {
    data: Vec<T>,
    capacity: usize,
}

impl<T> Default for ChillVec<T> {
    fn default() -> (r: Self)
        ensures
            r.wf(),
            r@ == Seq::<T>::empty(),
            r.spec_capacity() == 0,
    {
        Self::new()
    }
}

impl<T> View for ChillVec<T> {
    type V = Seq<T>;

    closed spec fn view(&self) -> Seq<T> {
        self.data@
    }
}

impl<T> ChillVec<T> {
    /// The number of elements the array has room for.
    pub closed spec fn spec_capacity(&self) -> usize {
        self.capacity
    }

    /// Well-formedness: the length never exceeds the capacity, and the
    /// capacity never exceeds the platform's single-allocation bound.
    pub open spec fn wf(&self) -> bool {
        self@.len() <= self.spec_capacity() <= isize::MAX as usize
    }

    /// A new array with zero length and zero capacity; allocates nothing.
    pub fn new() -> (r: Self)
        ensures
            r.wf(),
            r@ == Seq::<T>::empty(),
            r.spec_capacity() == 0,
    {
        ChillVec { data: Vec::new(), capacity: 0 }
    }

    /// A new array with zero length and room for exactly `cap` elements.
    /// A request past the single-allocation bound is excluded: the process
    /// would have to be terminated to honour it.
    pub fn with_capacity(cap: usize) -> (r: Self)
        requires
            cap <= isize::MAX as usize,
        ensures
            r.wf(),
            r@ == Seq::<T>::empty(),
            r.spec_capacity() == cap,
    {
        ChillVec { data: Vec::with_capacity(cap), capacity: cap }
    }

    pub fn capacity(&self) -> (r: usize)
        ensures
            r == self.spec_capacity(),
    {
        self.capacity
    }

    pub fn len(&self) -> (r: usize)
        ensures
            r == self@.len(),
    {
        self.data.len()
    }

    /// Ensures the capacity is at least `new_capacity`; a no-op when it
    /// already is. Existing elements are preserved, and the capacity never
    /// decreases.
    pub fn reserve(&mut self, new_capacity: usize)
        requires
            old(self).wf(),
            new_capacity <= isize::MAX as usize,
        ensures
            final(self).wf(),
            final(self)@ == old(self)@,
            final(self).spec_capacity() == (if new_capacity > old(self).spec_capacity() {
                new_capacity
            } else {
                old(self).spec_capacity()
            }),
    {
        if new_capacity <= self.capacity {
            return ;
        }
        let additional = new_capacity - self.data.len();
        self.data.reserve(additional);
        self.capacity = new_capacity;
    }

    /// Appends one element. When the array is full it first grows to
    /// `capacity + capacity / 2 + 1` (capped at the single-allocation
    /// bound), so the capacity strictly increases even from zero.
    pub fn push(&mut self, item: T)
        requires
            old(self).wf(),
            old(self)@.len() < isize::MAX as usize,
        ensures
            final(self).wf(),
            final(self)@ == old(self)@.push(item),
            final(self).spec_capacity() >= old(self).spec_capacity(),
            old(self)@.len() < old(self).spec_capacity() ==> final(self).spec_capacity() == old(
                self,
            ).spec_capacity(),
            old(self)@.len() == old(self).spec_capacity() ==> final(self).spec_capacity() as int
                == vstd::math::min(
                old(self).spec_capacity() + old(self).spec_capacity() / 2 + 1,
                isize::MAX as int,
            ),
    {
        if self.data.len() == self.capacity {
            let grown = if self.capacity < isize::MAX as usize - self.capacity / 2 - 1 {
                self.capacity + self.capacity / 2 + 1
            } else {
                isize::MAX as usize
            };
            self.reserve(grown);
        }
        self.data.push(item);
    }

    /// Bounds-checked access: absent when `index` is at or past the length.
    pub fn get(&self, index: usize) -> (r: Option<&T>)
        ensures
            (match r {
                Some(x) => index < self@.len() && *x == self@[index as int],
                None => index >= self@.len(),
            }),
    {
        if index < self.data.len() {
            Some(&self.data[index])
        } else {
            None
        }
    }

    /// Access without a runtime bounds check: the caller must already have
    /// established that `index` is in range.
    pub fn get_unchecked(&self, index: usize) -> (r: &T)
        requires
            index < self@.len(),
        ensures
            *r == self@[index as int],
    {
        &self.data[index]
    }

    /// Mutable access without a runtime bounds check: the caller must
    /// already have established that `index` is in range.
    pub fn get_unchecked_mut(&mut self, index: usize) -> (r: &mut T)
        requires
            index < old(self)@.len(),
        ensures
            *r == old(self)@[index as int],
            final(self)@ == old(self)@.update(index as int, *final(r)),
            final(self).spec_capacity() == old(self).spec_capacity(),
    {
        &mut self.data[index]
    }

    /// Compacts the capacity to exactly the length: a no-op when the array
    /// is empty or already tight. This is the one operation that can lower
    /// the capacity; the backing buffer keeps its storage until the array
    /// is dropped.
    pub fn shrink_to_fit(&mut self)
        requires
            old(self).wf(),
        ensures
            final(self).wf(),
            final(self)@ == old(self)@,
            final(self).spec_capacity() == (if old(self)@.len() > 0 {
                old(self)@.len()
            } else {
                old(self).spec_capacity() as nat
            }),
            old(self)@.len() > 0 ==> final(self).spec_capacity() == final(self)@.len(),
    {
        if self.data.len() > 0 && self.capacity > self.data.len() {
            self.capacity = self.data.len();
        }
    }

    /// The whole array as a slice.
    pub fn as_slice(&self) -> (r: &[T])
        ensures
            r@ == self@,
    {
        self.data.as_slice()
    }
}

impl<T: Copy> ChillVec<T> {
    /// An explicit deep copy whose capacity is exactly the length: the one
    /// way to copy an array, since its memory is exclusively owned and
    /// never aliased.
    pub fn duplicate(&self) -> (r: Self)
        requires
            self.wf(),
        ensures
            r.wf(),
            r@ == self@,
            r.spec_capacity() == self@.len(),
    {
        let n = self.len();
        let mut r = Self::with_capacity(n);
        proof {
            assert(r@ =~= self@.subrange(0, 0));
        }
        let mut i: usize = 0;
        while i < n
            invariant
                self.wf(),
                n == self@.len(),
                i <= n,
                r.wf(),
                r.spec_capacity() == n,
                r@ == self@.subrange(0, i as int),
            decreases n - i,
        {
            let x: T = *self.get_unchecked(i);
            r.push(x);
            i += 1;
        }
        proof {
            assert(self@.subrange(0, self@.len() as int) =~= self@);
        }
        r
    }

    /// Appends every element of `items` after a single bulk reservation.
    pub fn extend_from_slice(&mut self, items: &[T])
        requires
            old(self).wf(),
            old(self)@.len() + items@.len() <= isize::MAX as usize,
        ensures
            final(self).wf(),
            final(self)@ == old(self)@ + items@,
            final(self).spec_capacity() >= old(self).spec_capacity(),
    {
        let new_len = self.data.len() + items.len();
        if new_len > self.capacity {
            let target = if new_len < isize::MAX as usize {
                new_len + 1
            } else {
                new_len
            };
            self.reserve(target);
        }
        let mut i: usize = 0;
        while i < items.len()
            invariant
                i <= items@.len(),
                self.data@ == old(self)@ + items@.subrange(0, i as int),
                self.spec_capacity() >= old(self)@.len() + items@.len(),
                self.spec_capacity() >= old(self).spec_capacity(),
                self.spec_capacity() <= isize::MAX as usize,
            decreases items@.len() - i,
        {
            let x: T = *vstd::slice::slice_index_get(items, i);
            self.data.push(x);
            i += 1;
        }
        proof {
            assert(items@.subrange(0, items@.len() as int) =~= items@);
        }
    }
}

/// Relies on `<[T]>::sort_by_key`: it reorders the slice in place, so the
/// result holds exactly the same elements, as a multiset, in some order.
/// The sort applies the key closure unchecked, so the closure's own
/// precondition must hold of every value it could be handed.
#[verifier::external_body]
pub(crate) fn sort_chill_by_key<T, K: Ord, F: FnMut(&T) -> K>(v: &mut ChillVec<T>, key: F)
    requires
        forall|x: &T| #[trigger] call_requires(key, (x,)),
    ensures
        final(v)@.to_multiset() == old(v)@.to_multiset(),
        final(v)@.len() == old(v)@.len(),
        final(v).spec_capacity() == old(v).spec_capacity(),
{
    v.data.sort_by_key(key)
}

/// Law: appending to an array extends its contents by exactly one element.
/// Together with the contracts of `push`, `len` and `get` this gives, by
/// induction over any sequence of appends, that the length equals the number
/// of appends and that position `i` holds exactly the `i`-th appended value.
pub proof fn lemma_push_appends<T>(prefix: Seq<T>, x: T)
    ensures
        prefix.push(x).len() == prefix.len() + 1,
        prefix.push(x)[prefix.len() as int] == x,
        forall|i: int| 0 <= i < prefix.len() ==> prefix.push(x)[i] == prefix[i],
{
}

} // verus!
