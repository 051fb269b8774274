//! A dense sequence of unsigned integers stored at the narrowest fixed
//! width (8, 16, 32 or 64 bits) that currently fits every stored value,
//! backed by one [`ChillVec`] per width.
//!
//! Appending a value that exceeds the active width's range triggers a
//! one-time re-encoding: a new array of the next sufficient width is
//! allocated with the old array's capacity, every stored value is copied
//! and widened into it, the representation is replaced, and only then is
//! the new value appended. Reading never changes the representation, and
//! the width never shrinks: the intended use is for monotonically growing
//! offset indexes, which start small-valued and only occasionally outgrow
//! a narrow width.

use crate::chill_vec::ChillVec;
use vstd::prelude::*;

verus! {

/// The active representation: one fixed-width array per width.
enum Repr {
    W8(ChillVec<u8>),
    W16(ChillVec<u16>),
    W32(ChillVec<u32>),
    W64(ChillVec<u64>),
}

/// The stored values, each widened to 64 bits.
spec fn repr_view(r: Repr) -> Seq<u64> {
    match r {
        Repr::W8(v) => v@.map_values(|x: u8| x as u64),
        Repr::W16(v) => v@.map_values(|x: u16| x as u64),
        Repr::W32(v) => v@.map_values(|x: u32| x as u64),
        Repr::W64(v) => v@,
    }
}

spec fn repr_wf(r: Repr) -> bool {
    match r {
        Repr::W8(v) => v.wf(),
        Repr::W16(v) => v.wf(),
        Repr::W32(v) => v.wf(),
        Repr::W64(v) => v.wf(),
    }
}

spec fn repr_cap(r: Repr) -> usize {
    match r {
        Repr::W8(v) => v.spec_capacity(),
        Repr::W16(v) => v.spec_capacity(),
        Repr::W32(v) => v.spec_capacity(),
        Repr::W64(v) => v.spec_capacity(),
    }
}

fn repr_len(r: &Repr) -> (n: usize)
    ensures
        n == repr_view(*r).len(),
{
    match r {
        Repr::W8(v) => v.len(),
        Repr::W16(v) => v.len(),
        Repr::W32(v) => v.len(),
        Repr::W64(v) => v.len(),
    }
}

fn repr_capacity(r: &Repr) -> (c: usize)
    ensures
        c == repr_cap(*r),
{
    match r {
        Repr::W8(v) => v.capacity(),
        Repr::W16(v) => v.capacity(),
        Repr::W32(v) => v.capacity(),
        Repr::W64(v) => v.capacity(),
    }
}

/// Reads one stored value, widened to 64 bits.
fn repr_read(r: &Repr, i: usize) -> (x: u64)
    requires
        i < repr_view(*r).len(),
    ensures
        x == repr_view(*r)[i as int],
{
    match r {
        Repr::W8(v) => *v.get_unchecked(i) as u64,
        Repr::W16(v) => *v.get_unchecked(i) as u64,
        Repr::W32(v) => *v.get_unchecked(i) as u64,
        Repr::W64(v) => *v.get_unchecked(i),
    }
}

/// Copies and widens every stored value into a fresh 16-bit array with the
/// old representation's capacity.
fn widen_16(src: &Repr) -> (out: ChillVec<u16>)
    requires
        repr_wf(*src),
        forall|i: int|
            0 <= i < repr_view(*src).len() ==> (#[trigger] repr_view(*src)[i]) <= u16::MAX as u64,
    ensures
        out.wf(),
        out@.map_values(|x: u16| x as u64) == repr_view(*src),
        out.spec_capacity() == repr_cap(*src),
{
    let n = repr_len(src);
    let cap = repr_capacity(src);
    let mut out = ChillVec::<u16>::with_capacity(cap);
    let mut i: usize = 0;
    while i < n
        invariant
            repr_wf(*src),
            n == repr_view(*src).len(),
            cap == repr_cap(*src),
            n <= cap,
            forall|j: int|
                0 <= j < repr_view(*src).len() ==> (#[trigger] repr_view(*src)[j]) <= u16::MAX
                    as u64,
            i <= n,
            out.wf(),
            out.spec_capacity() == cap,
            out@.len() == i,
            forall|j: int| 0 <= j < i ==> (#[trigger] out@[j]) as u64 == repr_view(*src)[j],
        decreases n - i,
    {
        let x = repr_read(src, i);
        out.push(x as u16);
        i += 1;
    }
    proof {
        assert(out@.map_values(|x: u16| x as u64) =~= repr_view(*src));
    }
    out
}

/// Copies and widens every stored value into a fresh 32-bit array with the
/// old representation's capacity.
fn widen_32(src: &Repr) -> (out: ChillVec<u32>)
    requires
        repr_wf(*src),
        forall|i: int|
            0 <= i < repr_view(*src).len() ==> (#[trigger] repr_view(*src)[i]) <= u32::MAX as u64,
    ensures
        out.wf(),
        out@.map_values(|x: u32| x as u64) == repr_view(*src),
        out.spec_capacity() == repr_cap(*src),
{
    let n = repr_len(src);
    let cap = repr_capacity(src);
    let mut out = ChillVec::<u32>::with_capacity(cap);
    let mut i: usize = 0;
    while i < n
        invariant
            repr_wf(*src),
            n == repr_view(*src).len(),
            cap == repr_cap(*src),
            n <= cap,
            forall|j: int|
                0 <= j < repr_view(*src).len() ==> (#[trigger] repr_view(*src)[j]) <= u32::MAX
                    as u64,
            i <= n,
            out.wf(),
            out.spec_capacity() == cap,
            out@.len() == i,
            forall|j: int| 0 <= j < i ==> (#[trigger] out@[j]) as u64 == repr_view(*src)[j],
        decreases n - i,
    {
        let x = repr_read(src, i);
        out.push(x as u32);
        i += 1;
    }
    proof {
        assert(out@.map_values(|x: u32| x as u64) =~= repr_view(*src));
    }
    out
}

/// Copies and widens every stored value into a fresh 64-bit array with the
/// old representation's capacity.
fn widen_64(src: &Repr) -> (out: ChillVec<u64>)
    requires
        repr_wf(*src),
    ensures
        out.wf(),
        out@ == repr_view(*src),
        out.spec_capacity() == repr_cap(*src),
{
    let n = repr_len(src);
    let cap = repr_capacity(src);
    let mut out = ChillVec::<u64>::with_capacity(cap);
    let mut i: usize = 0;
    while i < n
        invariant
            repr_wf(*src),
            n == repr_view(*src).len(),
            cap == repr_cap(*src),
            n <= cap,
            i <= n,
            out.wf(),
            out.spec_capacity() == cap,
            out@ == repr_view(*src).subrange(0, i as int),
        decreases n - i,
    {
        let x = repr_read(src, i);
        out.push(x);
        i += 1;
    }
    proof {
        assert(repr_view(*src).subrange(0, repr_view(*src).len() as int) =~= repr_view(*src));
    }
    out
}

/// The narrowest of the four widths (8, 16, 32, 64 bits) that losslessly
/// holds every value of `values`.
pub open spec fn narrowest_width(values: Seq<u64>) -> u32 {
    if exists|i: int| 0 <= i < values.len() && (#[trigger] values[i]) > u32::MAX as u64 {
        64
    } else if exists|i: int| 0 <= i < values.len() && (#[trigger] values[i]) > u16::MAX as u64 {
        32
    } else if exists|i: int| 0 <= i < values.len() && (#[trigger] values[i]) > u8::MAX as u64 {
        16
    } else {
        8
    }
}

/// A dense array of unsigned 64-bit values stored at the narrowest fixed
/// width that fits every value currently stored.
pub struct CompactIntArray {
    repr: Repr,
}

impl View for CompactIntArray {
    type V = Seq<u64>;

    closed spec fn view(&self) -> Seq<u64> {
        repr_view(self.repr)
    }
}

impl CompactIntArray {
    /// The active representation's width in bits: 8, 16, 32 or 64.
    pub closed spec fn spec_width(&self) -> u32 {
        match self.repr {
            Repr::W8(_) => 8,
            Repr::W16(_) => 16,
            Repr::W32(_) => 32,
            Repr::W64(_) => 64,
        }
    }

    /// Well-formedness: the backing array is well-formed, and the active
    /// width is the narrowest of the four that holds every stored value.
    pub closed spec fn wf(&self) -> bool {
        &&& repr_wf(self.repr)
        &&& self.spec_width() == narrowest_width(self@)
    }

    /// What well-formedness guarantees to every caller: the length stays
    /// within the single-allocation bound.
    pub proof fn lemma_wf_bounds(&self)
        requires
            self.wf(),
        ensures
            self@.len() <= isize::MAX as usize,
            self.spec_width() == narrowest_width(self@),
    {
    }

    /// An empty array at the narrowest width, 8 bits.
    pub fn new() -> (r: Self)
        ensures
            r.wf(),
            r@ == Seq::<u64>::empty(),
            r.spec_width() == 8,
    {
        let r = CompactIntArray { repr: Repr::W8(ChillVec::new()) };
        proof {
            assert(r@ =~= Seq::<u64>::empty());
        }
        r
    }

    pub fn len(&self) -> (r: usize)
        ensures
            r == self@.len(),
    {
        repr_len(&self.repr)
    }

    /// The active representation's width in bits: 8, 16, 32 or 64. The
    /// width never decreases over the array's lifetime.
    pub fn width(&self) -> (r: u32)
        ensures
            r == self.spec_width(),
    {
        match &self.repr {
            Repr::W8(_) => 8,
            Repr::W16(_) => 16,
            Repr::W32(_) => 32,
            Repr::W64(_) => 64,
        }
    }

    /// Bounds-checked access: the value stored at `index`, widened back to
    /// 64 bits, or absent when `index` is at or past the length.
    pub fn get(&self, index: usize) -> (r: Option<u64>)
        ensures
            (match r {
                Some(x) => index < self@.len() && x == self@[index as int],
                None => index >= self@.len(),
            }),
    {
        if index < self.len() {
            Some(repr_read(&self.repr, index))
        } else {
            None
        }
    }

    /// Appends one value. When the value exceeds the active width's range,
    /// the representation is first upgraded to the narrowest width that
    /// holds it: every stored value is copied and widened into a new array
    /// with the old one's capacity, and the value is appended afterwards.
    /// Stored values are never changed, and the width never decreases.
    pub fn push(&mut self, value: u64)
        requires
            old(self).wf(),
            old(self)@.len() < isize::MAX as usize,
        ensures
            final(self).wf(),
            final(self)@ == old(self)@.push(value),
            final(self).spec_width() == narrowest_width(final(self)@),
            final(self).spec_width() >= old(self).spec_width(),
    {
        let fits: bool = match &self.repr {
            Repr::W8(_) => value <= 0xff,
            Repr::W16(_) => value <= 0xffff,
            Repr::W32(_) => value <= 0xffff_ffff,
            Repr::W64(_) => true,
        };
        if !fits {
            if value <= 0xffff {
                let wide = widen_16(&self.repr);
                self.repr = Repr::W16(wide);
            } else if value <= 0xffff_ffff {
                let wide = widen_32(&self.repr);
                self.repr = Repr::W32(wide);
            } else {
                let wide = widen_64(&self.repr);
                self.repr = Repr::W64(wide);
            }
            proof {
                assert(self@ == old(self)@);
            }
        }
        match &mut self.repr {
            Repr::W8(v) => v.push(value as u8),
            Repr::W16(v) => v.push(value as u16),
            Repr::W32(v) => v.push(value as u32),
            Repr::W64(v) => v.push(value),
        }
        proof {
            let n = old(self)@.len() as int;
            assert(self@ =~= old(self)@.push(value));
            assert forall|j: int| 0 <= j < n implies #[trigger] self@[j] == old(self)@[j] by {}
            assert(self@[n] == value);
            if self.spec_width() == 8 {
                assert forall|j: int| 0 <= j < self@.len() implies (#[trigger] self@[j])
                    <= u8::MAX as u64 by {}
            }
            if self.spec_width() == 16 {
                assert forall|j: int| 0 <= j < self@.len() implies (#[trigger] self@[j])
                    <= u16::MAX as u64 by {}
                if old(self).spec_width() == 16 {
                    let j = choose|j: int|
                        0 <= j < old(self)@.len() && (#[trigger] old(self)@[j]) > u8::MAX as u64;
                    assert(self@[j] > u8::MAX as u64);
                } else {
                    assert(self@[n] > u8::MAX as u64);
                }
            }
            if self.spec_width() == 32 {
                assert forall|j: int| 0 <= j < self@.len() implies (#[trigger] self@[j])
                    <= u32::MAX as u64 by {}
                if old(self).spec_width() == 32 {
                    let j = choose|j: int|
                        0 <= j < old(self)@.len() && (#[trigger] old(self)@[j]) > u16::MAX as u64;
                    assert(self@[j] > u16::MAX as u64);
                } else {
                    assert(self@[n] > u16::MAX as u64);
                }
            }
            if self.spec_width() == 64 {
                if old(self).spec_width() == 64 {
                    let j = choose|j: int|
                        0 <= j < old(self)@.len() && (#[trigger] old(self)@[j]) > u32::MAX as u64;
                    assert(self@[j] > u32::MAX as u64);
                } else {
                    assert(self@[n] > u32::MAX as u64);
                }
            }
        }
    }
}

} // verus!
