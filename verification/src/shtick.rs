//! A byte sequence with two representations chosen automatically by size: a
//! fixed fourteen-byte unallocated buffer for short content, and a heap
//! allocation for everything longer.  Contents are UTF-8 whenever they are
//! built through the character and string constructors, which the rendering
//! functions rely on.
use crate::allocation::{Allocation16, AllocationError};
use crate::index::{spec_grow, Count16, CountN};
use vstd::prelude::*;
use vstd::utf8::*;

verus! {

broadcast use {crate::allocation::lemma_allocation_len, crate::index::lemma_count_in_range};

pub type ShtickResult<T> = Result<T, ShtickError>;

pub type Shticked = ShtickResult<()>;

#[derive(Eq, PartialEq, Structural, Copy, Clone, Debug, Hash)]
pub enum ShtickError {
    /// The contents would not fit in the sixteen-bit count domain.
    TooLarge,
    Allocation(AllocationError),
}

impl Default for ShtickError {
    fn default() -> (r: Self)
        ensures
            r == ShtickError::Allocation(AllocationError::OutOfMemory),
    {
        Self::Allocation(AllocationError::OutOfMemory)
    }
}

/// Bytes held without a heap allocation, up to this count.
pub const UNALLOCATED16: i16 = 14;

/// The first capacity an unallocated shtick jumps to when it overflows.
pub const SHORT_NEXT_POWER_OF_2: i16 = 16;

/// The largest number of bytes a shtick can hold.
pub const MAX_COUNT16: usize = 32767;

/// Either a fixed-size buffer holding the bytes directly, or an owned heap
/// allocation; each keeps its own live-byte count.
enum ShtickRepr {
    Unallocated { buffer: Vec<u8>, count: Count16 },
    Allocated { allocation: Allocation16<u8>, count: Count16 },
}

/// A byte sequence that stays in a fixed-size buffer while short and moves to
/// a heap allocation when it grows past `UNALLOCATED16` bytes.
pub struct Shtick {
    repr: ShtickRepr,
}

impl View for Shtick {
    type V = Seq<u8>;

    /// The live bytes, whichever representation holds them.
    closed spec fn view(&self) -> Seq<u8> {
        match self.repr {
            ShtickRepr::Unallocated { buffer, count } => buffer@.take(count@ as int),
            ShtickRepr::Allocated { allocation, count } => Seq::new(
                count@ as nat,
                |i: int| allocation@[i]->0,
            ),
        }
    }
}

impl Shtick {
    /// Unallocated contents sit in a buffer of exactly `UNALLOCATED16` bytes;
    /// allocated contents sit in a strictly larger allocation, with the live
    /// bytes as its initialized prefix and never more than `MAX_COUNT16` of
    /// them.
    pub closed spec fn wf(self) -> bool {
        match self.repr {
            ShtickRepr::Unallocated { buffer, count } => {
                &&& count.wf()
                &&& buffer@.len() == UNALLOCATED16 as int
                &&& count@ <= UNALLOCATED16 as int
            },
            ShtickRepr::Allocated { allocation, count } => {
                &&& allocation.wf()
                &&& count.wf()
                &&& UNALLOCATED16 < allocation@.len()
                &&& count@ <= allocation@.len()
                &&& count@ <= MAX_COUNT16 as int
                &&& forall|i: int| 0 <= i < count@ ==> allocation@[i] is Some
                &&& forall|i: int| count@ <= i < allocation@.len() ==> allocation@[i] is None
            },
        }
    }

    pub closed spec fn spec_is_allocated(&self) -> bool {
        self.repr is Allocated
    }

    /// The bytes available without growing: the fixed buffer size when
    /// unallocated, the allocation's slot count when allocated.
    pub closed spec fn spec_capacity(&self) -> int {
        match self.repr {
            ShtickRepr::Unallocated { .. } => UNALLOCATED16 as int,
            ShtickRepr::Allocated { allocation, .. } => allocation@.len() as int,
        }
    }

    fn max_unallocated_count() -> (r: Count16)
        ensures
            r.wf(),
            r@ == UNALLOCATED16 as int,
    {
        Count16::of(UNALLOCATED16)
    }

    pub fn new() -> (r: Self)
        ensures
            r.wf(),
            r@ =~= Seq::<u8>::empty(),
            !r.spec_is_allocated(),
            r.spec_capacity() == UNALLOCATED16 as int,
    {
        Self {
            repr: ShtickRepr::Unallocated {
                buffer: vec![0u8; UNALLOCATED16 as usize],
                count: Count16::of(0),
            },
        }
    }

    pub fn is_allocated(&self) -> (r: bool)
        ensures
            r == self.spec_is_allocated(),
    {
        match &self.repr {
            ShtickRepr::Allocated { .. } => true,
            ShtickRepr::Unallocated { .. } => false,
        }
    }

    pub fn is_unallocated(&self) -> (r: bool)
        ensures
            r == !self.spec_is_allocated(),
    {
        !self.is_allocated()
    }

    /// The number of live bytes.
    pub fn count(&self) -> (r: Count16)
        requires
            self.wf(),
        ensures
            r.wf(),
            r@ == self@.len(),
    {
        if self.is_allocated() {
            self.count_allocated()
        } else {
            self.count_unallocated()
        }
    }

    fn count_unallocated(&self) -> (r: Count16)
        requires
            self.wf(),
            !self.spec_is_allocated(),
        ensures
            r.wf(),
            r@ == self@.len(),
    {
        match &self.repr {
            ShtickRepr::Unallocated { count, .. } => *count,
            ShtickRepr::Allocated { .. } => vstd::pervasive::unreached(),
        }
    }

    fn count_allocated(&self) -> (r: Count16)
        requires
            self.wf(),
            self.spec_is_allocated(),
        ensures
            r.wf(),
            r@ == self@.len(),
    {
        match &self.repr {
            ShtickRepr::Allocated { count, .. } => *count,
            ShtickRepr::Unallocated { .. } => vstd::pervasive::unreached(),
        }
    }

    /// The number of bytes available to this shtick before it must grow.
    pub fn capacity(&self) -> (r: Count16)
        requires
            self.wf(),
        ensures
            r.wf(),
            r@ == self.spec_capacity(),
    {
        match &self.repr {
            ShtickRepr::Unallocated { .. } => Self::max_unallocated_count(),
            ShtickRepr::Allocated { allocation, .. } => allocation.capacity(),
        }
    }

    /// A copy of the live bytes.
    pub fn as_bytes(&self) -> (r: Vec<u8>)
        requires
            self.wf(),
        ensures
            r@ == self@,
    {
        match &self.repr {
            ShtickRepr::Unallocated { buffer, count } => {
                let n = count.as_usize();
                let mut out: Vec<u8> = Vec::new();
                let mut i: usize = 0;
                while i < n
                    invariant
                        n <= buffer@.len(),
                        i <= n,
                        out@ == buffer@.take(i as int),
                    decreases n - i,
                {
                    out.push(buffer[i]);
                    proof {
                        assert(out@ =~= buffer@.take(i + 1));
                    }
                    i = i + 1;
                }
                proof {
                    assert(out@ =~= self@);
                }
                out
            },
            ShtickRepr::Allocated { allocation, count } => {
                let out = allocation.as_slice(*count);
                proof {
                    assert(out@ =~= self@);
                }
                out
            },
        }
    }

    /// Writes `bytes` after the current contents and extends the count; the
    /// capacity must already be large enough.
    fn push_bytes(&mut self, bytes: &[u8])
        requires
            old(self).wf(),
            old(self)@.len() + bytes@.len() <= old(self).spec_capacity(),
            old(self)@.len() + bytes@.len() <= MAX_COUNT16 as int,
        ensures
            final(self).wf(),
            final(self)@ == old(self)@ + bytes@,
            final(self).spec_is_allocated() == old(self).spec_is_allocated(),
            final(self).spec_capacity() == old(self).spec_capacity(),
    {
        match &mut self.repr {
            ShtickRepr::Unallocated { buffer, count } => {
                let start = count.as_usize();
                proof {
                    assert(old(self)@.len() == start);
                }
                let n = bytes.len();
                let ghost buffer0 = buffer@;
                let mut j: usize = 0;
                while j < n
                    invariant
                        j <= n,
                        n == bytes@.len(),
                        start + n <= buffer@.len(),
                        buffer@.len() == UNALLOCATED16 as int,
                        buffer@.len() == buffer0.len(),
                        forall|k: int| 0 <= k < start ==> buffer@[k] == buffer0[k],
                        forall|k: int| 0 <= k < j ==> buffer@[start + k] == bytes@[k],
                    decreases n - j,
                {
                    buffer.set(start + j, bytes[j]);
                    j = j + 1;
                }
                let new_count = match Count16::from_usize(start + n) {
                    Ok(c) => c,
                    Err(_) => vstd::pervasive::unreached(),
                };
                *count = new_count;
            },
            ShtickRepr::Allocated { allocation, count } => {
                let start = count.as_usize();
                proof {
                    assert(old(self)@.len() == start);
                }
                let n = bytes.len();
                let ghost alloc0 = allocation@;
                let mut j: usize = 0;
                while j < n
                    invariant
                        allocation.wf(),
                        j <= n,
                        n == bytes@.len(),
                        start + n <= allocation@.len(),
                        allocation@.len() == alloc0.len(),
                        forall|k: int| 0 <= k < start ==> allocation@[k] == alloc0[k],
                        forall|k: int| 0 <= k < start ==> allocation@[k] is Some,
                        forall|k: int| 0 <= k < j ==> allocation@[start + k] == Some(bytes@[k]),
                        forall|k: int| start + j <= k < allocation@.len() ==> allocation@[k] is None,
                    decreases n - j,
                {
                    let wrote = allocation.write_uninitialized((start + j) as i64, bytes[j]);
                    proof {
                        assert(wrote is Ok);
                    }
                    j = j + 1;
                }
                proof {
                    assert forall|i: int| start <= i < start + n implies allocation@[i] is Some by {
                        assert(allocation@[start + (i - start)] == Some(bytes@[i - start]));
                    }
                }
                let new_count = match Count16::from_usize(start + n) {
                    Ok(c) => c,
                    Err(_) => vstd::pervasive::unreached(),
                };
                *count = new_count;
            },
        }
        proof {
            assert(self@ =~= old(self)@ + bytes@);
        }
    }

    /// Moves the contents to whichever representation `new_capacity` calls
    /// for, truncating them when the new capacity is smaller.  A target at or
    /// below `UNALLOCATED16` lands in the fixed buffer, whose capacity never
    /// shrinks further; a larger target lands in a heap allocation of exactly
    /// that size.
    pub fn mut_capacity(&mut self, new_capacity: Count16) -> (r: Shticked)
        requires
            old(self).wf(),
            new_capacity.wf(),
        ensures
            final(self).wf(),
            r == Ok::<(), ShtickError>(()),
            final(self)@ == old(self)@.take(
                if new_capacity@ < old(self)@.len() {
                    new_capacity@ as int
                } else {
                    old(self)@.len() as int
                },
            ),
            new_capacity@ <= UNALLOCATED16 as int ==> !final(self).spec_is_allocated()
                && final(self).spec_capacity() == UNALLOCATED16 as int,
            new_capacity@ > UNALLOCATED16 as int ==> final(self).spec_is_allocated()
                && final(self).spec_capacity() == new_capacity@,
    {
        let inline_max = Self::max_unallocated_count();
        if new_capacity.le(&inline_max) {
            if self.is_allocated() {
                // Take the allocation out into its own binding before the
                // fixed buffer is written, so the bytes are read from one
                // owner and written to another.
                let mut taken = ShtickRepr::Unallocated { buffer: Vec::new(), count: Count16::of(0) };
                core::mem::swap(&mut taken, &mut self.repr);
                match taken {
                    ShtickRepr::Allocated { allocation, count } => {
                        let new_count = if count.le(&new_capacity) {
                            count
                        } else {
                            new_capacity
                        };
                        let bytes = allocation.as_slice(new_count);
                        let n = new_count.as_usize();
                        let mut buffer = vec![0u8; UNALLOCATED16 as usize];
                        let mut j: usize = 0;
                        while j < n
                            invariant
                                j <= n,
                                n == bytes@.len() <= buffer@.len(),
                                buffer@.len() == UNALLOCATED16 as int,
                                forall|k: int| 0 <= k < j ==> buffer@[k] == bytes@[k],
                            decreases n - j,
                        {
                            buffer.set(j, bytes[j]);
                            j = j + 1;
                        }
                        self.repr = ShtickRepr::Unallocated { buffer, count: new_count };
                        proof {
                            assert(self@ =~= old(self)@.take(
                                if new_capacity@ < old(self)@.len() {
                                    new_capacity@ as int
                                } else {
                                    old(self)@.len() as int
                                },
                            ));
                        }
                    },
                    ShtickRepr::Unallocated { .. } => vstd::pervasive::unreached(),
                }
            } else {
                match &mut self.repr {
                    ShtickRepr::Unallocated { buffer, count } => {
                        if new_capacity.lt(&*count) {
                            *count = new_capacity;
                        }
                    },
                    ShtickRepr::Allocated { .. } => vstd::pervasive::unreached(),
                }
                proof {
                    assert(self@ =~= old(self)@.take(
                        if new_capacity@ < old(self)@.len() {
                            new_capacity@ as int
                        } else {
                            old(self)@.len() as int
                        },
                    ));
                }
            }
        } else {
            if self.is_allocated() {
                match &mut self.repr {
                    ShtickRepr::Allocated { allocation, count } => {
                        let resized = allocation.mut_capacity(new_capacity);
                        proof {
                            assert(resized is Ok);
                        }
                        if new_capacity.lt(&*count) {
                            *count = new_capacity;
                        }
                    },
                    ShtickRepr::Unallocated { .. } => vstd::pervasive::unreached(),
                }
                proof {
                    assert(self@ =~= old(self)@.take(
                        if new_capacity@ < old(self)@.len() {
                            new_capacity@ as int
                        } else {
                            old(self)@.len() as int
                        },
                    ));
                }
            } else {
                // Fill a fresh allocation before installing it, so no byte of
                // the fixed buffer is overwritten while it is still the
                // source.
                let mut taken = ShtickRepr::Unallocated { buffer: Vec::new(), count: Count16::of(0) };
                core::mem::swap(&mut taken, &mut self.repr);
                match taken {
                    ShtickRepr::Unallocated { buffer, count } => {
                        let mut allocation = Allocation16::<u8>::new();
                        let resized = allocation.mut_capacity(new_capacity);
                        proof {
                            assert(resized is Ok);
                        }
                        let n = count.as_usize();
                        let mut j: usize = 0;
                        while j < n
                            invariant
                                allocation.wf(),
                                j <= n,
                                n <= buffer@.len(),
                                n < allocation@.len(),
                                allocation@.len() == new_capacity@,
                                forall|k: int| 0 <= k < j ==> allocation@[k] == Some(buffer@[k]),
                                forall|k: int| j <= k < allocation@.len() ==> allocation@[k] is None,
                            decreases n - j,
                        {
                            let wrote = allocation.write_uninitialized(j as i64, buffer[j]);
                            proof {
                                assert(wrote is Ok);
                            }
                            j = j + 1;
                        }
                        self.repr = ShtickRepr::Allocated { allocation, count };
                        proof {
                            assert(self@ =~= old(self)@.take(
                                if new_capacity@ < old(self)@.len() {
                                    new_capacity@ as int
                                } else {
                                    old(self)@.len() as int
                                },
                            ));
                        }
                    },
                    ShtickRepr::Allocated { .. } => vstd::pervasive::unreached(),
                }
            }
        }
        Ok(())
    }

    /// The UTF-8 encoding of one character: one to four bytes.
    fn encode_char(value: char) -> (r: Vec<u8>)
        ensures
            r@ == encode_scalar(value as u32),
            1 <= r@.len() <= 4,
    {
        proof {
            char_is_scalar(value);
        }
        let scalar = value as u32;
        let mut out: Vec<u8> = Vec::new();
        if scalar <= 0x7F {
            out.push((scalar & 0x7F) as u8);
        } else if scalar <= 0x7FF {
            out.push(0xC0u8 | ((scalar >> 6u32) & 0x1F) as u8);
            out.push(0x80u8 | (scalar & 0x3F) as u8);
        } else if scalar <= 0xFFFF {
            out.push(0xE0u8 | ((scalar >> 12u32) & 0x0F) as u8);
            out.push(0x80u8 | ((scalar >> 6u32) & 0x3F) as u8);
            out.push(0x80u8 | (scalar & 0x3F) as u8);
        } else {
            out.push(0xF0u8 | ((scalar >> 18u32) & 0x7) as u8);
            out.push(0x80u8 | ((scalar >> 12u32) & 0x3F) as u8);
            out.push(0x80u8 | ((scalar >> 6u32) & 0x3F) as u8);
            out.push(0x80u8 | (scalar & 0x3F) as u8);
        }
        proof {
            assert(out@ =~= encode_scalar(value as u32));
        }
        out
    }

    /// Appends one character's UTF-8 bytes, growing the capacity first when
    /// they would not fit below it: an unallocated shtick jumps straight to a
    /// fixed larger size the first time it overflows, and an allocated one
    /// doubles, saturating at the width's maximum.
    pub fn push(&mut self, value: char) -> (r: Shticked)
        requires
            old(self).wf(),
        ensures
            final(self).wf(),
            ({
                let needed = old(self)@.len() + encode_scalar(value as u32).len();
                let cap = old(self).spec_capacity();
                &&& needed > MAX_COUNT16 as int ==> r == Err::<(), ShtickError>(
                    ShtickError::TooLarge,
                ) && final(self)@ == old(self)@ && final(self).spec_capacity() == cap
                    && final(self).spec_is_allocated() == old(self).spec_is_allocated()
                &&& needed <= MAX_COUNT16 as int ==> {
                    &&& r == Ok::<(), ShtickError>(())
                    &&& final(self)@ == old(self)@ + encode_scalar(value as u32)
                    &&& final(self).spec_capacity() == (if needed < cap {
                        cap
                    } else if !old(self).spec_is_allocated() {
                        2 * SHORT_NEXT_POWER_OF_2 as int
                    } else {
                        spec_grow(cap, 2, CountN::<i16>::spec_max())
                    })
                    &&& final(self).spec_is_allocated() == (needed >= cap || old(
                        self,
                    ).spec_is_allocated())
                }
            }),
    {
        let encoded = Self::encode_char(value);
        let count = self.count();
        let needed_usize = count.as_usize() + encoded.len();
        if needed_usize > MAX_COUNT16 {
            return Err(ShtickError::TooLarge);
        }
        let needed = match Count16::from_usize(needed_usize) {
            Ok(c) => c,
            Err(_) => vstd::pervasive::unreached(),
        };
        let capacity = self.capacity();
        if capacity.le(&needed) {
            let target = if self.is_unallocated() {
                Count16::of(SHORT_NEXT_POWER_OF_2 * 2)
            } else {
                capacity.double_or_max(2)
            };
            let grown = self.mut_capacity(target);
            proof {
                assert(grown is Ok);
                assert(self@ =~= old(self)@);
            }
        }
        self.push_bytes(encoded.as_slice());
        Ok(())
    }

    /// Builds a shtick holding exactly `bytes`, sized to fit: contents up to
    /// `UNALLOCATED16` bytes stay unallocated, longer ones get a heap
    /// allocation of exactly their size.  Fails with `TooLarge` exactly when
    /// the input is longer than `MAX_COUNT16`.
    pub fn try_from_bytes(bytes: &[u8]) -> (r: ShtickResult<Self>)
        ensures
            bytes@.len() > MAX_COUNT16 as int ==> r == Err::<Self, ShtickError>(
                ShtickError::TooLarge,
            ),
            bytes@.len() <= MAX_COUNT16 as int ==> (r matches Ok(s) && s.wf() && s@ == bytes@ && (
            s.spec_is_allocated() <==> bytes@.len() > UNALLOCATED16 as int)),
    {
        let n = bytes.len();
        if n > MAX_COUNT16 {
            return Err(ShtickError::TooLarge);
        }
        let count = match Count16::from_usize(n) {
            Ok(c) => c,
            Err(_) => vstd::pervasive::unreached(),
        };
        let mut shtick = Self::new();
        let sized = shtick.mut_capacity(count);
        proof {
            assert(sized is Ok);
        }
        shtick.push_bytes(bytes);
        Ok(shtick)
    }

    /// Builds a shtick holding the UTF-8 bytes of `string`; fails with
    /// `TooLarge` exactly when those bytes are longer than `MAX_COUNT16`.
    pub fn try_from_str(string: &str) -> (r: ShtickResult<Self>)
        ensures
            encode_utf8(string@).len() > MAX_COUNT16 as int ==> r == Err::<Self, ShtickError>(
                ShtickError::TooLarge,
            ),
            encode_utf8(string@).len() <= MAX_COUNT16 as int ==> (r matches Ok(s) && s.wf() && s@
                == encode_utf8(string@)),
    {
        Self::try_from_bytes(string.as_bytes())
    }

    /// Builds a shtick from `string`, which the caller knows fits.
    pub fn or_die(string: &str) -> (r: Self)
        requires
            encode_utf8(string@).len() <= MAX_COUNT16 as int,
        ensures
            r.wf(),
            r@ == encode_utf8(string@),
    {
        match Self::try_from_str(string) {
            Ok(shtick) => shtick,
            Err(_) => vstd::pervasive::unreached(),
        }
    }

    /// The contents rendered as text.  The bytes are interpreted as UTF-8
    /// without re-validation: building only through the character and string
    /// constructors keeps them valid.
    pub fn display_string(&self) -> (r: String)
        requires
            self.wf(),
            valid_utf8(self@),
        ensures
            r@ == decode_utf8(self@),
            encode_utf8(r@) == self@,
    {
        let bytes = self.as_bytes();
        let text = string_from_utf8(bytes);
        proof {
            encode_utf8_decode_utf8(text@);
        }
        text
    }

    /// The contents rendered as the constructor expression that would
    /// rebuild them.
    pub fn debug_string(&self) -> (r: String)
        requires
            self.wf(),
            valid_utf8(self@),
        ensures
            r@ == "Shtick::or_die(\""@ + decode_utf8(self@) + "\")"@,
    {
        let mut out = String::from_str("Shtick::or_die(\"");
        let body = self.display_string();
        out.append(body.as_str());
        out.append("\")");
        out
    }

}

/// Relies on `String::from_utf8`: for valid UTF-8 input it returns the
/// string whose UTF-8 encoding is exactly those bytes.
#[verifier::external_body]
fn string_from_utf8(bytes: Vec<u8>) -> (r: String)
    requires
        valid_utf8(bytes@),
    ensures
        encode_utf8(r@) == bytes@,
{
    String::from_utf8(bytes).unwrap()
}

/// Round trip: a shtick built from any character sequence holds exactly its
/// UTF-8 encoding, those bytes are valid UTF-8, and rendering decodes them
/// back to exactly the original characters.
pub proof fn lemma_display_round_trip(s: Seq<char>)
    ensures
        valid_utf8(encode_utf8(s)),
        decode_utf8(encode_utf8(s)) == s,
{
    encode_utf8_valid_utf8(s);
    encode_utf8_decode_utf8(s);
}

} // verus!
