//! An append-only array of strings, all stored in one contiguous byte
//! buffer. Beside the buffer stands an offset index: cumulative byte
//! positions, one more entry than there are strings, beginning at 0, so
//! that string `i` occupies the byte span `[offsets[i], offsets[i + 1])`.
//!
//! Compared with an array of independently allocated strings this removes
//! per-string allocation and bookkeeping overhead and gives much better
//! iteration locality; in exchange, stored strings can never be removed or
//! changed.
//!
//! The buffer holds UTF-8 by construction: only whole `&str` values enter
//! it, so every stored span decodes back to exactly the text that was
//! pushed.

use crate::chill_vec::ChillVec;
use vstd::prelude::*;
use vstd::slice::slice_subrange;
use vstd::string::StringSliceAdditionalSpecFns;
use vstd::utf8::encode_utf8;
use vstd::utf8::encode_utf8_decode_utf8;
use vstd::utf8::encode_utf8_valid_utf8;
use vstd::utf8::valid_utf8;

verus! {

/// Relies on `core::str::from_utf8`: it returns the string slice decoded
/// from the given bytes exactly when they are valid UTF-8, and that slice's
/// byte encoding is the given bytes themselves.
#[verifier::external_body]
fn bytes_to_str(v: &[u8]) -> (r: Option<&str>)
    ensures
        r is Some <==> valid_utf8(v@),
        r matches Some(s) ==> s.spec_bytes() == v@,
{
    core::str::from_utf8(v).ok()
}

/// An append-only array of strings packed into one shared byte buffer.
pub struct StrVec {
    data: ChillVec<u8>,
    indices: ChillVec<usize>,
    strs: Ghost<Seq<Seq<char>>>,
}

impl Default for StrVec {
    fn default() -> (r: Self)
        ensures
            r.wf(),
            r@ == Seq::<Seq<char>>::empty(),
            r.spec_byte_len() == 0,
    {
        Self::new()
    }
}

impl View for StrVec {
    type V = Seq<Seq<char>>;

    closed spec fn view(&self) -> Seq<Seq<char>> {
        self.strs@
    }
}

impl StrVec {
    /// Total number of bytes currently stored in the shared buffer.
    pub closed spec fn spec_byte_len(&self) -> nat {
        self.data@.len()
    }

    /// Well-formedness: the offset index starts at 0, is monotonically
    /// non-decreasing, ends at the buffer's length, and has one more entry
    /// than there are strings; the bytes between consecutive offsets are
    /// exactly the UTF-8 encoding of the corresponding string.
    pub closed spec fn wf(&self) -> bool {
        &&& self.data.wf()
        &&& self.indices.wf()
        &&& self.indices@.len() == self@.len() + 1
        &&& self.indices@[0] == 0
        &&& forall|i: int|
            0 <= i < self@.len() ==> #[trigger] self.indices@[i] <= self.indices@[i + 1]
        &&& forall|i: int| 0 <= i <= self@.len() ==> #[trigger] self.indices@[i] <= self.data@.len()
        &&& self.indices@[self@.len() as int] == self.data@.len()
        &&& forall|i: int|
            0 <= i < self@.len() ==> #[trigger] encode_utf8(self@[i]) == self.data@.subrange(
                self.indices@[i] as int,
                self.indices@[i + 1] as int,
            )
    }

    /// What well-formedness guarantees to every caller: the string count
    /// and the byte count both stay within the single-allocation bound.
    pub proof fn lemma_wf_bounds(&self)
        requires
            self.wf(),
        ensures
            self@.len() + 1 <= isize::MAX as usize,
            self.spec_byte_len() <= isize::MAX as usize,
    {
    }

    /// An empty table: no strings, no bytes, and the single offset entry 0.
    /// Starts with a modest pre-sized buffer and index.
    pub fn new() -> (r: Self)
        ensures
            r.wf(),
            r@ == Seq::<Seq<char>>::empty(),
            r.spec_byte_len() == 0,
    {
        Self::with_capacity(64, 8)
    }

    /// An empty table whose buffer has room for `bytes_cap` bytes and whose
    /// offset index has room for `indices_cap` entries. Requests past the
    /// single-allocation bound are excluded: the process would have to be
    /// terminated to honour them.
    pub fn with_capacity(bytes_cap: usize, indices_cap: usize) -> (r: Self)
        requires
            bytes_cap <= isize::MAX as usize,
            indices_cap <= isize::MAX as usize,
        ensures
            r.wf(),
            r@ == Seq::<Seq<char>>::empty(),
            r.spec_byte_len() == 0,
    {
        let mut indices = ChillVec::<usize>::with_capacity(indices_cap);
        indices.push(0);
        let r = StrVec {
            data: ChillVec::with_capacity(bytes_cap),
            indices,
            strs: Ghost(Seq::empty()),
        };
        proof {
            assert(r.indices@ =~= seq![0usize]);
        }
        r
    }

    pub fn is_empty(&self) -> (r: bool)
        requires
            self.wf(),
        ensures
            r == (self@.len() == 0),
    {
        self.len() == 0
    }

    /// Bounds-checked access: the string stored at `index`, or absent when
    /// `index` is at or past the length. The returned slice borrows the
    /// shared buffer; nothing is copied.
    pub fn get(&self, index: usize) -> (r: Option<&str>)
        requires
            self.wf(),
        ensures
            (match r {
                Some(s) => index < self@.len() && s@ == self@[index as int],
                None => index >= self@.len(),
            }),
    {
        if index >= self.len() {
            return None;
        }
        let begin = *self.indices.get_unchecked(index);
        let end = *self.indices.get_unchecked(index + 1);
        let part = slice_subrange(self.data.as_slice(), begin, end);
        proof {
            assert(part@ == encode_utf8(self@[index as int]));
            encode_utf8_valid_utf8(self@[index as int]);
        }
        let r = bytes_to_str(part);
        proof {
            encode_utf8_decode_utf8(r->Some_0@);
            encode_utf8_decode_utf8(self@[index as int]);
        }
        r
    }

    /// Appends a whole string: its bytes go to the shared buffer in one
    /// bulk copy, and the buffer's new end position is recorded in the
    /// offset index. Returns the new string's ordinal position, its key for
    /// later retrieval.
    ///
    /// Pushing an empty string is legal: the length grows by one, the byte
    /// buffer is unchanged, and the new string's span has zero length.
    pub fn push(&mut self, item: &str) -> (key: usize)
        requires
            old(self).wf(),
            old(self).spec_byte_len() + encode_utf8(item@).len() <= isize::MAX as usize,
            old(self)@.len() + 2 <= isize::MAX as usize,
        ensures
            final(self).wf(),
            final(self)@ == old(self)@.push(item@),
            key == old(self)@.len(),
            final(self).spec_byte_len() == old(self).spec_byte_len() + encode_utf8(item@).len(),
            item@.len() == 0 ==> final(self).spec_byte_len() == old(self).spec_byte_len(),
    {
        let bytes: &[u8] = item.as_bytes();
        let key = self.indices.len() - 1;
        let end = self.data.len() + bytes.len();
        self.indices.push(end);
        self.data.extend_from_slice(bytes);
        proof {
            if item@.len() == 0 {
                assert(encode_utf8(item@) =~= Seq::<u8>::empty());
            }
        }
        self.strs = Ghost(self.strs@.push(item@));
        proof {
            let olds = old(self)@;
            let oldi = old(self).indices@;
            let oldd = old(self).data@;
            assert forall|i: int| 0 <= i < olds.len() implies #[trigger] encode_utf8(self@[i])
                == self.data@.subrange(self.indices@[i] as int, self.indices@[i + 1] as int) by {
                assert(self.indices@[i] == oldi[i]);
                assert(self.indices@[i + 1] == oldi[i + 1]);
                assert(self@[i] == olds[i]);
                assert(self.data@.subrange(oldi[i] as int, oldi[i + 1] as int) =~= oldd.subrange(
                    oldi[i] as int,
                    oldi[i + 1] as int,
                ));
            }
            assert(self.data@.subrange(oldd.len() as int, self.data@.len() as int) =~= bytes@);
        }
        key
    }

    /// A restartable iterator over the stored strings, in insertion order.
    /// Each yielded slice borrows the shared buffer; nothing is copied.
    pub fn iter(&self) -> (it: StrVecIter<'_>)
        requires
            self.wf(),
        ensures
            it.wf(),
            it.spec_table() == self@,
            it.spec_pos() == 0,
    {
        StrVecIter { strvec: self, index: 0 }
    }

    pub fn len(&self) -> (r: usize)
        requires
            self.wf(),
        ensures
            r == self@.len(),
    {
        self.indices.len() - 1
    }
}

/// An iterator over the strings of a [`StrVec`], in insertion order.
pub struct StrVecIter<'a> {
    strvec: &'a StrVec,
    index: usize,
}

impl<'a> StrVecIter<'a> {
    /// The strings being walked.
    pub closed spec fn spec_table(&self) -> Seq<Seq<char>> {
        self.strvec@
    }

    /// How many strings have been yielded so far.
    pub closed spec fn spec_pos(&self) -> usize {
        self.index
    }

    pub closed spec fn wf(&self) -> bool {
        self.strvec.wf() && self.spec_pos() <= self.spec_table().len()
    }

    /// Yields the next string, or absent once all have been yielded.
    pub fn next(&mut self) -> (r: Option<&'a str>)
        requires
            old(self).wf(),
        ensures
            final(self).wf(),
            final(self).spec_table() == old(self).spec_table(),
            (if old(self).spec_pos() < old(self).spec_table().len() {
                &&& (r matches Some(s) && s@ == old(self).spec_table()[old(self).spec_pos() as int])
                &&& final(self).spec_pos() == old(self).spec_pos() + 1
            } else {
                &&& r is None
                &&& final(self).spec_pos() == old(self).spec_pos()
            }),
    {
        if self.index < self.strvec.len() {
            let out = self.strvec.get(self.index);
            self.index += 1;
            out
        } else {
            None
        }
    }

    /// The total number of strings in the underlying table.
    pub fn len(&self) -> (r: usize)
        requires
            self.wf(),
        ensures
            r == self.spec_table().len(),
    {
        self.strvec.len()
    }
}

} // verus!
