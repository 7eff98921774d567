//! Non-negative magnitudes (`CountN`) stored in negated form, and position
//! resolution (`Index`) against a current count.
//!
//! A count is stored as the arithmetic negation of its logical value, so a
//! width-W signed storage type represents one more distinct magnitude than its
//! positive range: an 8-bit width represents magnitudes `0..=128`.
use vstd::prelude::*;

verus! {

/// A zero-based position within a sequence; may be negative while a request
/// is being resolved.
pub type Offset = i64;

/// The growth policy on plain integers: saturate at `max` once `c` reaches
/// half of it, otherwise the larger of `min_value` and `2 * c`.
pub open spec fn spec_grow(c: int, min_value: int, max: int) -> int {
    if c >= max / 2 {
        max
    } else if min_value >= 2 * c {
        min_value
    } else {
        2 * c
    }
}

#[derive(Eq, PartialEq, Copy, Clone, Debug, Hash)]
pub enum CountError {
    TooHigh,
    NonPositive,
}

/// The signed storage types a `CountN` can be built on.  Each implementation
/// ties the executable operations to their mathematical meaning through
/// `sp_int`, so that `CountN` can be verified once, generically.
pub trait SignedPrimitive: Sized + Copy {
    /// The mathematical value of this storage value.
    spec fn sp_int(self) -> int;

    /// The least storable value.
    spec fn sp_min() -> int;

    /// The greatest storable value.
    spec fn sp_max() -> int;

    proof fn sp_facts(x: Self)
        ensures
            Self::sp_min() <= x.sp_int() <= Self::sp_max(),
    ;

    proof fn sp_range()
        ensures
            Self::sp_max() + 1 == -Self::sp_min(),
            Self::sp_min() % 2 == 0,
            127 <= Self::sp_max(),
            Self::sp_max() <= i64::MAX,
            i64::MIN <= Self::sp_min(),
    ;

    proof fn sp_injective(x: Self, y: Self)
        requires
            x.sp_int() == y.sp_int(),
        ensures
            x == y,
    ;

    fn sp_zero() -> (r: Self)
        ensures
            r.sp_int() == 0,
    ;

    fn sp_one() -> (r: Self)
        ensures
            r.sp_int() == 1,
    ;

    fn sp_min_value() -> (r: Self)
        ensures
            r.sp_int() == Self::sp_min(),
    ;

    /// Half the least storable value; exact, since the least value is even.
    fn sp_half_min() -> (r: Self)
        ensures
            r.sp_int() == Self::sp_min() / 2,
    ;

    fn sp_eq(self, other: Self) -> (r: bool)
        ensures
            r == (self.sp_int() == other.sp_int()),
    ;

    fn sp_le(self, other: Self) -> (r: bool)
        ensures
            r == (self.sp_int() <= other.sp_int()),
    ;

    fn sp_neg(self) -> (r: Self)
        requires
            Self::sp_min() <= -self.sp_int() <= Self::sp_max(),
        ensures
            r.sp_int() == -self.sp_int(),
    ;

    fn sp_plus(self, other: Self) -> (r: Self)
        requires
            Self::sp_min() <= self.sp_int() + other.sp_int() <= Self::sp_max(),
        ensures
            r.sp_int() == self.sp_int() + other.sp_int(),
    ;

    fn sp_double(self) -> (r: Self)
        requires
            Self::sp_min() <= 2 * self.sp_int() <= Self::sp_max(),
        ensures
            r.sp_int() == 2 * self.sp_int(),
    ;

    fn sp_to_i64(self) -> (r: i64)
        ensures
            r == self.sp_int(),
    ;

    /// The greatest representable magnitude, `-sp_min()`, as a `u64`.
    fn sp_max_magnitude_u64() -> (r: u64)
        ensures
            r == -Self::sp_min(),
    ;

    /// The storage value whose mathematical value is `-magnitude`.
    fn sp_neg_of_u64(magnitude: u64) -> (r: Self)
        requires
            magnitude <= -Self::sp_min(),
        ensures
            r.sp_int() == -(magnitude as int),
    ;

    /// The storage value whose mathematical value is `-small`.
    fn sp_neg_of_i8(small: i8) -> (r: Self)
        requires
            0 <= small,
        ensures
            r.sp_int() == -(small as int),
    ;
}

impl SignedPrimitive for i64 {
    open spec fn sp_int(self) -> int {
        self as int
    }

    open spec fn sp_min() -> int {
        i64::MIN as int
    }

    open spec fn sp_max() -> int {
        i64::MAX as int
    }

    proof fn sp_facts(x: Self) {
    }

    proof fn sp_range() {
    }

    proof fn sp_injective(x: Self, y: Self) {
    }

    fn sp_zero() -> (r: Self) {
        0
    }

    fn sp_one() -> (r: Self) {
        1
    }

    fn sp_min_value() -> (r: Self) {
        i64::MIN
    }

    fn sp_half_min() -> (r: Self) {
        i64::MIN / 2
    }

    fn sp_eq(self, other: Self) -> (r: bool) {
        self == other
    }

    fn sp_le(self, other: Self) -> (r: bool) {
        self <= other
    }

    fn sp_neg(self) -> (r: Self) {
        -self
    }

    fn sp_plus(self, other: Self) -> (r: Self) {
        self + other
    }

    fn sp_double(self) -> (r: Self) {
        2 * self
    }

    fn sp_to_i64(self) -> (r: i64) {
        self
    }

    fn sp_max_magnitude_u64() -> (r: u64) {
        0x8000_0000_0000_0000
    }

    fn sp_neg_of_u64(magnitude: u64) -> (r: Self) {
        if magnitude >= 0x8000_0000_0000_0000 {
            i64::MIN
        } else {
            -(magnitude as i64)
        }
    }

    fn sp_neg_of_i8(small: i8) -> (r: Self) {
        -(small as i64)
    }
}

impl SignedPrimitive for i32 {
    open spec fn sp_int(self) -> int {
        self as int
    }

    open spec fn sp_min() -> int {
        i32::MIN as int
    }

    open spec fn sp_max() -> int {
        i32::MAX as int
    }

    proof fn sp_facts(x: Self) {
    }

    proof fn sp_range() {
    }

    proof fn sp_injective(x: Self, y: Self) {
    }

    fn sp_zero() -> (r: Self) {
        0
    }

    fn sp_one() -> (r: Self) {
        1
    }

    fn sp_min_value() -> (r: Self) {
        i32::MIN
    }

    fn sp_half_min() -> (r: Self) {
        i32::MIN / 2
    }

    fn sp_eq(self, other: Self) -> (r: bool) {
        self == other
    }

    fn sp_le(self, other: Self) -> (r: bool) {
        self <= other
    }

    fn sp_neg(self) -> (r: Self) {
        -self
    }

    fn sp_plus(self, other: Self) -> (r: Self) {
        self + other
    }

    fn sp_double(self) -> (r: Self) {
        2 * self
    }

    fn sp_to_i64(self) -> (r: i64) {
        self as i64
    }

    fn sp_max_magnitude_u64() -> (r: u64) {
        0x8000_0000
    }

    fn sp_neg_of_u64(magnitude: u64) -> (r: Self) {
        if magnitude >= 0x8000_0000 {
            i32::MIN
        } else {
            -(magnitude as i32)
        }
    }

    fn sp_neg_of_i8(small: i8) -> (r: Self) {
        -(small as i32)
    }
}

impl SignedPrimitive for i16 {
    open spec fn sp_int(self) -> int {
        self as int
    }

    open spec fn sp_min() -> int {
        i16::MIN as int
    }

    open spec fn sp_max() -> int {
        i16::MAX as int
    }

    proof fn sp_facts(x: Self) {
    }

    proof fn sp_range() {
    }

    proof fn sp_injective(x: Self, y: Self) {
    }

    fn sp_zero() -> (r: Self) {
        0
    }

    fn sp_one() -> (r: Self) {
        1
    }

    fn sp_min_value() -> (r: Self) {
        i16::MIN
    }

    fn sp_half_min() -> (r: Self) {
        i16::MIN / 2
    }

    fn sp_eq(self, other: Self) -> (r: bool) {
        self == other
    }

    fn sp_le(self, other: Self) -> (r: bool) {
        self <= other
    }

    fn sp_neg(self) -> (r: Self) {
        -self
    }

    fn sp_plus(self, other: Self) -> (r: Self) {
        self + other
    }

    fn sp_double(self) -> (r: Self) {
        2 * self
    }

    fn sp_to_i64(self) -> (r: i64) {
        self as i64
    }

    fn sp_max_magnitude_u64() -> (r: u64) {
        0x8000
    }

    fn sp_neg_of_u64(magnitude: u64) -> (r: Self) {
        if magnitude >= 0x8000 {
            i16::MIN
        } else {
            -(magnitude as i16)
        }
    }

    fn sp_neg_of_i8(small: i8) -> (r: Self) {
        -(small as i16)
    }
}

impl SignedPrimitive for i8 {
    open spec fn sp_int(self) -> int {
        self as int
    }

    open spec fn sp_min() -> int {
        i8::MIN as int
    }

    open spec fn sp_max() -> int {
        i8::MAX as int
    }

    proof fn sp_facts(x: Self) {
    }

    proof fn sp_range() {
    }

    proof fn sp_injective(x: Self, y: Self) {
    }

    fn sp_zero() -> (r: Self) {
        0
    }

    fn sp_one() -> (r: Self) {
        1
    }

    fn sp_min_value() -> (r: Self) {
        i8::MIN
    }

    fn sp_half_min() -> (r: Self) {
        i8::MIN / 2
    }

    fn sp_eq(self, other: Self) -> (r: bool) {
        self == other
    }

    fn sp_le(self, other: Self) -> (r: bool) {
        self <= other
    }

    fn sp_neg(self) -> (r: Self) {
        -self
    }

    fn sp_plus(self, other: Self) -> (r: Self) {
        self + other
    }

    fn sp_double(self) -> (r: Self) {
        2 * self
    }

    fn sp_to_i64(self) -> (r: i64) {
        self as i64
    }

    fn sp_max_magnitude_u64() -> (r: u64) {
        0x80
    }

    fn sp_neg_of_u64(magnitude: u64) -> (r: Self) {
        if magnitude >= 0x80 {
            i8::MIN
        } else {
            -(magnitude as i8)
        }
    }

    fn sp_neg_of_i8(small: i8) -> (r: Self) {
        -small
    }
}

pub type Count = Count64;

pub type Count64 = CountN<i64>;

pub type Count32 = CountN<i32>;

pub type Count16 = CountN<i16>;

pub type Count8 = CountN<i8>;

/// A non-negative magnitude, stored as the negation of its logical value so
/// that the most negative storable value stands for the largest magnitude.
#[derive(Copy, Clone, Debug, Hash)]
pub struct CountN<T: SignedPrimitive>(T);

impl<T: SignedPrimitive> View for CountN<T> {
    type V = int;

    /// The logical magnitude: the negation of the stored value.
    closed spec fn view(&self) -> int {
        -self.0.sp_int()
    }
}

impl<T: SignedPrimitive> CountN<T> {
    /// The stored value is never positive.
    pub closed spec fn wf(self) -> bool {
        self.0.sp_int() <= 0
    }

    /// The largest representable magnitude for this width.
    pub open spec fn spec_max() -> int {
        -T::sp_min()
    }

    pub fn of(value: T) -> (r: Self)
        requires
            value.sp_int() >= 0,
        ensures
            r.wf(),
            r@ == value.sp_int(),
    {
        proof {
            T::sp_facts(value);
            T::sp_range();
        }
        Self(value.sp_neg())
    }

    /// The largest representable count: the magnitude of the most negative
    /// storable value.
    pub fn max_value() -> (r: Self)
        ensures
            r.wf(),
            r@ == Self::spec_max(),
    {
        proof {
            T::sp_range();
        }
        Self(T::sp_min_value())
    }

    /// The largest representable count, as a `usize`; only meaningful on a
    /// machine whose `usize` can hold it.
    pub fn max_usize() -> (r: usize)
        requires
            Self::spec_max() <= usize::MAX,
        ensures
            r == Self::spec_max(),
    {
        proof {
            T::sp_range();
        }
        T::sp_max_magnitude_u64() as usize
    }

    pub fn from_usize(value: usize) -> (r: Result<Self, CountError>)
        ensures
            value <= Self::spec_max() ==> (r matches Ok(c) && c.wf() && c@ == value),
            value > Self::spec_max() ==> r == Err::<Self, CountError>(CountError::TooHigh),
    {
        proof {
            T::sp_range();
        }
        if value as u64 > T::sp_max_magnitude_u64() {
            Err(CountError::TooHigh)
        } else {
            Ok(Self(T::sp_neg_of_u64(value as u64)))
        }
    }

    /// What `double_or_max` computes: saturate to the width's maximum once the
    /// count is at least half of it, otherwise the larger of `min_value` and
    /// twice the count.
    pub open spec fn spec_double_or_max(self, min_value: int) -> int {
        spec_grow(self@, min_value, Self::spec_max())
    }

    /// Growth policy for containers: doubles without risking overflow of the
    /// storage type, saturating at the width's maximum.
    pub fn double_or_max(self, min_value: i8) -> (r: Self)
        requires
            self.wf(),
            0 <= min_value,
        ensures
            r.wf(),
            r@ == self.spec_double_or_max(min_value as int),
    {
        proof {
            T::sp_facts(self.0);
            T::sp_range();
        }
        if self.0.sp_le(T::sp_half_min()) {
            return Self::max_value();
        }
        let floor = T::sp_neg_of_i8(min_value);
        let doubled = self.0.sp_double();
        Self(if floor.sp_le(doubled) {
            floor
        } else {
            doubled
        })
    }

    /// True exactly when `offset` is a valid zero-based offset for this
    /// count.
    pub open spec fn spec_contains(self, offset: int) -> bool {
        0 <= offset < self@
    }

    /// The greatest valid zero-based offset; `-1` for an empty count.
    pub open spec fn spec_max_offset(self) -> int {
        self@ - 1
    }

    /// True exactly when `offset` lies within a sequence of this count.
    pub fn contains(self, offset: Offset) -> (r: bool)
        requires
            self.wf(),
        ensures
            r == self.spec_contains(offset as int),
    {
        offset >= 0 && offset <= self.max_offset()
    }

    /// The greatest valid zero-based offset, `-1` for an empty count.
    pub fn max_offset(self) -> (r: Offset)
        requires
            self.wf(),
        ensures
            r == self.spec_max_offset(),
    {
        proof {
            T::sp_facts(self.0);
            T::sp_range();
        }
        let stored = self.0.sp_to_i64();
        -(stored + 1)
    }

    /// The count one greater.  Since the internal value is negated, adding is
    /// subtracting on the storage type.
    pub fn plus_one(self) -> (r: Self)
        requires
            self.wf(),
            self@ + 1 <= Self::spec_max(),
        ensures
            r.wf(),
            r@ == self@ + 1,
    {
        proof {
            T::sp_facts(self.0);
            T::sp_range();
        }
        Self(self.0.sp_plus(T::sp_neg_of_i8(1)))
    }

    /// The count one less.
    pub fn minus_one(self) -> (r: Self)
        requires
            self.wf(),
            self@ >= 1,
        ensures
            r.wf(),
            r@ == self@ - 1,
    {
        proof {
            T::sp_facts(self.0);
            T::sp_range();
        }
        Self(self.0.sp_plus(T::sp_one()))
    }

    /// This count as a `usize`, when it fits.
    pub fn try_usize(self) -> (r: Option<usize>)
        requires
            self.wf(),
        ensures
            self@ <= usize::MAX ==> r == Some(self@ as usize),
            self@ > usize::MAX ==> r is None,
    {
        proof {
            T::sp_facts(self.0);
            T::sp_range();
        }
        let last = self.max_offset();
        if last < 0 {
            Some(0)
        } else if last as u64 <= usize::MAX as u64 - 1 {
            Some((last as u64 + 1) as usize)
        } else {
            None
        }
    }

    /// This count as a `usize`; the caller knows that it fits.
    pub fn as_usize(self) -> (r: usize)
        requires
            self.wf(),
            self@ <= usize::MAX,
        ensures
            r == self@,
    {
        proof {
            T::sp_facts(self.0);
            T::sp_range();
        }
        let last = self.max_offset();
        if last < 0 {
            0
        } else {
            (last as u64 + 1) as usize
        }
    }
}

impl<T: SignedPrimitive> Default for CountN<T> {
    fn default() -> (r: Self)
        ensures
            r.wf(),
            r@ == 0,
    {
        Self(T::sp_zero())
    }
}

impl<T: SignedPrimitive> PartialEq for CountN<T> {
    fn eq(&self, other: &Self) -> (r: bool) {
        self.0.sp_eq(other.0)
    }
}

impl<T: SignedPrimitive> Eq for CountN<T> {}

impl<T: SignedPrimitive> vstd::std_specs::cmp::PartialEqSpecImpl for CountN<T> {
    open spec fn obeys_eq_spec() -> bool {
        true
    }

    open spec fn eq_spec(&self, other: &Self) -> bool {
        self@ == other@
    }
}

impl<T: SignedPrimitive> PartialOrd for CountN<T> {
    /// Comparison is by logical magnitude: the reverse of the stored values'
    /// natural ordering.
    fn partial_cmp(&self, other: &Self) -> (r: Option<core::cmp::Ordering>) {
        if self.0.sp_eq(other.0) {
            Some(core::cmp::Ordering::Equal)
        } else if other.0.sp_le(self.0) {
            Some(core::cmp::Ordering::Less)
        } else {
            Some(core::cmp::Ordering::Greater)
        }
    }
}

impl<T: SignedPrimitive> vstd::std_specs::cmp::PartialOrdSpecImpl for CountN<T> {
    open spec fn obeys_partial_cmp_spec() -> bool {
        true
    }

    open spec fn partial_cmp_spec(&self, other: &Self) -> Option<core::cmp::Ordering> {
        if self@ < other@ {
            Some(core::cmp::Ordering::Less)
        } else if self@ == other@ {
            Some(core::cmp::Ordering::Equal)
        } else {
            Some(core::cmp::Ordering::Greater)
        }
    }
}

/// A closed set of position-resolution strategies against a current count.
#[derive(Eq, PartialEq, Copy, Clone, Debug, Hash)]
pub enum Index {
    /// Zero-based indexing with partial wrap around: `Of(0)` is the first
    /// element and negative values wrap once from the end, so `Of(-1)` is the
    /// last element, down to `Of(-count)` for the first; anything below that
    /// errs.  Non-negative values are not bounds-checked, so they can grow a
    /// sequence.
    Of(i64),
    /// Zero-based indexing that must stay within the current bounds:
    /// negative values and values at or past the count err.
    InBounds(i64),
    /// Zero-based indexing with full modular wraparound in both directions.
    Wrap(i64),
    /// One-based indexing: `Ordinal(Count::of(1))` is the first element.
    /// Zero is invalid; ordinals past the count grow the sequence.
    Ordinal(Count),
}

#[derive(Eq, PartialEq, Structural, Copy, Clone, Debug, Hash)]
pub enum IndexError {
    EmptySequence,
    OutOfBounds,
    InvalidOrdinal,
}

pub type IndexResult<T> = Result<T, IndexError>;

/// A resolved offset, together with whether acting on it would need to
/// extend the sequence.
#[derive(Eq, PartialEq, Structural, Copy, Clone, Debug, Hash)]
pub struct OffsetCheck {
    pub offset: Offset,
    pub increases_count: bool,
}

impl OffsetCheck {
    pub fn in_bounds(offset: Offset) -> (r: Self)
        ensures
            r == (OffsetCheck { offset, increases_count: false }),
    {
        Self { offset, increases_count: false }
    }

    pub fn increases_count(offset: Offset) -> (r: Self)
        ensures
            r == (OffsetCheck { offset, increases_count: true }),
    {
        Self { offset, increases_count: true }
    }
}

impl Index {
    /// An `Ordinal` carries a count of its own, which must be well formed.
    pub open spec fn wf(self) -> bool {
        match self {
            Index::Ordinal(count) => count.wf(),
            _ => true,
        }
    }

    /// What `check_offset` resolves to against a sequence of `n` elements.
    pub open spec fn spec_check_offset(self, n: int) -> IndexResult<OffsetCheck> {
        match self {
            Index::Of(value) => if value >= 0 {
                Ok(OffsetCheck { offset: value, increases_count: value >= n })
            } else if n + value >= 0 {
                Ok(OffsetCheck { offset: (n + value) as i64, increases_count: false })
            } else {
                Err(IndexError::OutOfBounds)
            },
            Index::InBounds(value) => if 0 <= value < n {
                Ok(OffsetCheck { offset: value, increases_count: false })
            } else {
                Err(IndexError::OutOfBounds)
            },
            Index::Wrap(value) => if n <= 0 {
                Err(IndexError::EmptySequence)
            } else {
                Ok(OffsetCheck { offset: ((value as int) % n) as i64, increases_count: false })
            },
            Index::Ordinal(count) => if count@ >= 1 {
                Ok(OffsetCheck { offset: (count@ - 1) as i64, increases_count: count@ > n })
            } else {
                Err(IndexError::InvalidOrdinal)
            },
        }
    }

    /// The sole resolution entry point: a pure function of the index and the
    /// current count.
    pub fn check_offset(self, sequence_size: Count) -> (r: IndexResult<OffsetCheck>)
        requires
            self.wf(),
            sequence_size.wf(),
        ensures
            r == self.spec_check_offset(sequence_size@),
    {
        proof {
            <i64 as SignedPrimitive>::sp_facts(sequence_size.0);
        }
        let ghost n = sequence_size@;
        match self {
            Index::Of(value) => {
                if value >= 0 {
                    let increases = !sequence_size.contains(value);
                    Ok(OffsetCheck { offset: value, increases_count: increases })
                } else {
                    // The stored value is exactly `-n`, so wrapping once from
                    // the end is a plain subtraction.
                    let stored = sequence_size.0.sp_to_i64();
                    if value >= stored {
                        Ok(OffsetCheck::in_bounds(value - stored))
                    } else {
                        Err(IndexError::OutOfBounds)
                    }
                }
            },
            Index::InBounds(value) => {
                if sequence_size.contains(value) {
                    Ok(OffsetCheck::in_bounds(value))
                } else {
                    Err(IndexError::OutOfBounds)
                }
            },
            Index::Wrap(value) => {
                let stored = sequence_size.0.sp_to_i64();
                if stored == 0 {
                    Err(IndexError::EmptySequence)
                } else if stored == i64::MIN {
                    // The count is one past `i64::MAX`, so every i64 wraps at
                    // most once.
                    proof {
                        if value < 0 {
                            vstd::arithmetic::div_mod::lemma_mod_add_multiples_vanish(
                                value as int,
                                n,
                            );
                        }
                        vstd::arithmetic::div_mod::lemma_small_mod(
                            (if value >= 0 { value as int } else { value + n }) as nat,
                            n as nat,
                        );
                    }
                    if value >= 0 {
                        Ok(OffsetCheck::in_bounds(value))
                    } else {
                        Ok(OffsetCheck::in_bounds(value - stored))
                    }
                } else {
                    let modulus = -stored;
                    let rem = value.checked_rem_euclid(modulus).unwrap();
                    Ok(OffsetCheck::in_bounds(rem))
                }
            },
            Index::Ordinal(count) => {
                let offset = count.max_offset();
                if offset >= 0 {
                    let increases = sequence_size.lt(&count);
                    Ok(OffsetCheck { offset, increases_count: increases })
                } else {
                    Err(IndexError::InvalidOrdinal)
                }
            },
        }
    }
}

/// A well-formed count is a magnitude: it is never negative, and never
/// beyond the width's maximum.
pub broadcast proof fn lemma_count_in_range<T: SignedPrimitive>(c: CountN<T>)
    requires
        #[trigger] c.wf(),
    ensures
        0 <= c@ <= CountN::<T>::spec_max(),
{
    T::sp_facts(c.0);
    T::sp_range();
}

/// For every well-formed count of magnitude `v`, the greatest valid offset is
/// `v - 1` when `v > 0`, and an offset is contained exactly when it lies in
/// `0..v`.
pub proof fn lemma_count_offsets<T: SignedPrimitive>(c: CountN<T>, v: int, o: int)
    requires
        c.wf(),
        c@ == v,
        0 <= v,
    ensures
        v > 0 ==> c.spec_max_offset() == v - 1,
        c.spec_contains(o) <==> 0 <= o < v,
{
}

/// Any count greater than half the width's maximum saturates to the maximum
/// under the growth policy.
pub proof fn lemma_double_or_max_saturates<T: SignedPrimitive>(c: CountN<T>, min_value: int)
    requires
        c.wf(),
        c@ > CountN::<T>::spec_max() / 2,
    ensures
        c.spec_double_or_max(min_value) == CountN::<T>::spec_max(),
{
}

/// Resolution of `Index::Of(i)` against a count of `n` elements: `0 <= i < n`
/// resolves in bounds at `i`; `-n <= i < 0` resolves in bounds at `n + i`;
/// `i < -n` fails out of bounds; `i >= n` resolves at `i` as a growing offset.
pub proof fn lemma_of_resolution(i: i64, n: int)
    requires
        0 <= n <= 0x8000_0000_0000_0000,
    ensures
        0 <= i < n ==> (Index::Of(i).spec_check_offset(n) matches Ok(oc) && oc.offset == i
            && !oc.increases_count),
        -n <= i < 0 ==> (Index::Of(i).spec_check_offset(n) matches Ok(oc) && oc.offset == n + i
            && !oc.increases_count),
        i < -n ==> Index::Of(i).spec_check_offset(n) == Err::<OffsetCheck, IndexError>(
            IndexError::OutOfBounds,
        ),
        i >= n ==> (Index::Of(i).spec_check_offset(n) matches Ok(oc) && oc.offset == i
            && oc.increases_count),
{
}

/// Resolution of `Index::Wrap(i)`: an empty sequence fails for every `i`; a
/// nonempty one resolves in bounds at the Euclidean remainder `i mod n`.
pub proof fn lemma_wrap_resolution(i: i64, n: int)
    requires
        0 <= n <= 0x8000_0000_0000_0000,
    ensures
        n == 0 ==> Index::Wrap(i).spec_check_offset(n) == Err::<OffsetCheck, IndexError>(
            IndexError::EmptySequence,
        ),
        n > 0 ==> (Index::Wrap(i).spec_check_offset(n) matches Ok(oc) && oc.offset == (i as int) % n
            && 0 <= oc.offset < n && !oc.increases_count),
{
    if n > 0 {
        vstd::arithmetic::div_mod::lemma_mod_bound(i as int, n);
    }
}

/// Resolution of `Index::Ordinal(c)`: ordinal zero is invalid; `1 <= c <= n`
/// resolves in bounds at `c - 1`; `c > n` resolves at `c - 1` as a growing
/// offset.
pub proof fn lemma_ordinal_resolution(c: Count, n: int)
    requires
        c.wf(),
        0 <= n,
    ensures
        c@ == 0 ==> Index::Ordinal(c).spec_check_offset(n) == Err::<OffsetCheck, IndexError>(
            IndexError::InvalidOrdinal,
        ),
        1 <= c@ <= n ==> (Index::Ordinal(c).spec_check_offset(n) matches Ok(oc) && oc.offset == c@
            - 1 && !oc.increases_count),
        c@ > n ==> (Index::Ordinal(c).spec_check_offset(n) matches Ok(oc) && oc.offset == c@ - 1
            && oc.increases_count),
{
    <i64 as SignedPrimitive>::sp_facts(c.0);
}

} // verus!
