//! A container backed by a [`ChillVec`] that is never empty, together with a
//! cursor that always points at a valid element: the current element can
//! therefore always be read, with no runtime bounds check.
//!
//! Advancing and retreating wrap around cyclically. `prev` is the exact
//! inverse of `next`: it moves one position backward, wrapping from the
//! first element to the last.

use crate::chill_vec::ChillVec;
use crate::chill_vec::sort_chill_by_key;
use vstd::prelude::*;

verus! {

/// Where the cursor lands when it advances one step from position `pos` in
/// an array of length `len`.
pub open spec fn wrap_forward(pos: int, len: int) -> int {
    if pos + 1 == len {
        0
    } else {
        pos + 1
    }
}

/// Where the cursor lands when it retreats one step from position `pos` in
/// an array of length `len`.
pub open spec fn wrap_backward(pos: int, len: int) -> int {
    if pos == 0 {
        len - 1
    } else {
        pos - 1
    }
}

/// A never-empty array with a cursor that always points at a valid element.
pub struct CursorVec<T> {
    index: usize,
    vec: ChillVec<T>,
}

impl<T> View for CursorVec<T> {
    type V = Seq<T>;

    closed spec fn view(&self) -> Seq<T> {
        self.vec@
    }
}

impl<T> CursorVec<T> {
    /// The cursor's current position.
    pub closed spec fn spec_tell(&self) -> usize {
        self.index
    }

    /// Well-formedness: the backing array is well-formed and never empty,
    /// and the cursor is always in range.
    pub closed spec fn wf(&self) -> bool {
        &&& self.vec.wf()
        &&& self@.len() > 0
        &&& self.spec_tell() < self@.len()
    }

    /// What well-formedness guarantees to every caller: the array is never
    /// empty, its length stays within the single-allocation bound, and the
    /// cursor is in range.
    pub proof fn lemma_wf_bounds(&self)
        requires
            self.wf(),
        ensures
            0 < self@.len() <= isize::MAX as usize,
            self.spec_tell() < self@.len(),
    {
    }

    /// Constructs a cursor over a single element, positioned on it. The
    /// array can never become empty afterwards: no removal is offered.
    pub fn new(first: T) -> (r: CursorVec<T>)
        ensures
            r.wf(),
            r@ == seq![first],
            r.spec_tell() == 0,
    {
        let mut vec = ChillVec::new();
        vec.push(first);
        proof {
            assert(vec@ =~= seq![first]);
        }
        CursorVec { index: 0, vec }
    }

    /// The current element. Always available: the array is never empty and
    /// the cursor is always in range.
    pub fn get(&self) -> (r: &T)
        requires
            self.wf(),
        ensures
            *r == self@[self.spec_tell() as int],
    {
        self.vec.get_unchecked(self.index)
    }

    /// Mutable access to the current element.
    pub fn get_mut(&mut self) -> (r: &mut T)
        requires
            old(self).wf(),
        ensures
            *r == old(self)@[old(self).spec_tell() as int],
            final(self)@ == old(self)@.update(old(self).spec_tell() as int, *final(r)),
            final(self).spec_tell() == old(self).spec_tell(),
            final(self).wf(),
    {
        self.vec.get_unchecked_mut(self.index)
    }

    /// Advances the cursor one step, wrapping from the last element back to
    /// the first.
    pub fn next(&mut self)
        requires
            old(self).wf(),
        ensures
            final(self).wf(),
            final(self)@ == old(self)@,
            final(self).spec_tell() == wrap_forward(
                old(self).spec_tell() as int,
                old(self)@.len() as int,
            ),
    {
        self.index += 1;
        if self.index == self.vec.len() {
            self.index = 0;
        }
    }

    /// Retreats the cursor one step, wrapping from the first element to the
    /// last: the exact inverse of `next`.
    pub fn prev(&mut self)
        requires
            old(self).wf(),
        ensures
            final(self).wf(),
            final(self)@ == old(self)@,
            final(self).spec_tell() == wrap_backward(
                old(self).spec_tell() as int,
                old(self)@.len() as int,
            ),
    {
        if self.index == 0 {
            self.index = self.vec.len() - 1;
        } else {
            self.index -= 1;
        }
    }

    /// Mutable access to the first element.
    pub fn get_first_mut(&mut self) -> (r: &mut T)
        requires
            old(self).wf(),
        ensures
            *r == old(self)@[0],
            final(self)@ == old(self)@.update(0, *final(r)),
            final(self).spec_tell() == old(self).spec_tell(),
            final(self).wf(),
    {
        self.vec.get_unchecked_mut(0)
    }

    /// Mutable access to the element at `index`, in storage order: the
    /// by-index way to mutate any element, current or not.
    pub fn at_mut(&mut self, index: usize) -> (r: &mut T)
        requires
            old(self).wf(),
            index < old(self)@.len(),
        ensures
            *r == old(self)@[index as int],
            final(self)@ == old(self)@.update(index as int, *final(r)),
            final(self).spec_tell() == old(self).spec_tell(),
            final(self).wf(),
    {
        self.vec.get_unchecked_mut(index)
    }

    /// Appends an element at the end; the cursor does not move.
    pub fn push(&mut self, item: T)
        requires
            old(self).wf(),
            old(self)@.len() < isize::MAX as usize,
        ensures
            final(self).wf(),
            final(self)@ == old(self)@.push(item),
            final(self).spec_tell() == old(self).spec_tell(),
    {
        self.vec.push(item)
    }

    /// A cursor-independent iterator over all elements, in storage order.
    pub fn iter(&self) -> (it: CursorVecIter<'_, T>)
        requires
            self.wf(),
        ensures
            it.wf(),
            it.spec_elements() == self@,
            it.spec_pos() == 0,
    {
        CursorVecIter { vec: &self.vec, pos: 0 }
    }

    /// The cursor's current position.
    pub fn tell(&self) -> (r: usize)
        ensures
            r == self.spec_tell(),
    {
        self.index
    }

    pub fn len(&self) -> (r: usize)
        ensures
            r == self@.len(),
    {
        self.vec.len()
    }

    /// Sorts the backing array in place by the given key. The elements are
    /// reordered, never added or removed; the cursor position is unchanged,
    /// though the element it points at may differ afterwards. The sort
    /// applies the key closure unchecked, so the closure's own
    /// precondition must hold of every value it could be handed.
    pub fn sort_by_key<K: Ord, F: FnMut(&T) -> K>(&mut self, key: F)
        requires
            old(self).wf(),
            forall|x: &T| #[trigger] call_requires(key, (x,)),
        ensures
            final(self).wf(),
            final(self)@.to_multiset() == old(self)@.to_multiset(),
            final(self)@.len() == old(self)@.len(),
            final(self).spec_tell() == old(self).spec_tell(),
    {
        sort_chill_by_key(&mut self.vec, key);
    }
}

/// An iterator over the elements of a [`CursorVec`], in storage order,
/// independent of the cursor.
pub struct CursorVecIter<'a, T> {
    vec: &'a ChillVec<T>,
    pos: usize,
}

impl<'a, T> CursorVecIter<'a, T> {
    /// The elements being walked.
    pub closed spec fn spec_elements(&self) -> Seq<T> {
        self.vec@
    }

    /// How many elements have been yielded so far.
    pub closed spec fn spec_pos(&self) -> usize {
        self.pos
    }

    pub closed spec fn wf(&self) -> bool {
        self.vec.wf() && self.spec_pos() <= self.spec_elements().len()
    }

    /// Yields the next element, or absent once all have been yielded.
    pub fn next(&mut self) -> (r: Option<&'a T>)
        requires
            old(self).wf(),
        ensures
            final(self).wf(),
            final(self).spec_elements() == old(self).spec_elements(),
            (if old(self).spec_pos() < old(self).spec_elements().len() {
                &&& (r matches Some(x) && *x == old(self).spec_elements()[old(self).spec_pos() as int])
                &&& final(self).spec_pos() == old(self).spec_pos() + 1
            } else {
                &&& r is None
                &&& final(self).spec_pos() == old(self).spec_pos()
            }),
    {
        if self.pos < self.vec.len() {
            let out = self.vec.get_unchecked(self.pos);
            self.pos += 1;
            Some(out)
        } else {
            None
        }
    }
}

/// Law: retreating undoes advancing, and advancing undoes retreating, at
/// every valid cursor position in a non-empty array.
pub proof fn lemma_prev_undoes_next(pos: int, len: int)
    requires
        0 <= pos < len,
    ensures
        wrap_backward(wrap_forward(pos, len), len) == pos,
        wrap_forward(wrap_backward(pos, len), len) == pos,
{
}

} // verus!
