//! Binary64 bit patterns, their total order, and the range clamp built on it.

use vstd::prelude::*;

verus! {

/// The sign bit of a binary64 bit pattern.
pub const SIGN_BIT: u64 = 0x8000_0000_0000_0000;

/// The bit pattern of positive infinity; every larger magnitude is a NaN.
pub const INFINITY_BITS: u64 = 0x7FF0_0000_0000_0000;

/// The bit pattern of negative infinity.
pub const NEG_INFINITY_BITS: u64 = 0xFFF0_0000_0000_0000;

/// The bit pattern of positive zero.
pub const ZERO_BITS: u64 = 0;

/// The bit pattern of `1.0`.
pub const ONE_BITS: u64 = 0x3FF0_0000_0000_0000;

/// The bit pattern of `0.25`.
pub const QUARTER_BITS: u64 = 0x3FD0_0000_0000_0000;

/// The pattern with its sign bit cleared.
pub open spec fn magnitude(bits: u64) -> int {
    if bits < SIGN_BIT {
        bits as int
    } else {
        bits - SIGN_BIT
    }
}

/// Whether the sign bit is set.
pub open spec fn is_negative(bits: u64) -> bool {
    bits >= SIGN_BIT
}

/// Whether the pattern encodes a NaN.
pub open spec fn is_nan(bits: u64) -> bool {
    magnitude(bits) > INFINITY_BITS
}

/// Whether the pattern encodes `+0.0` or `-0.0`.
pub open spec fn is_zero(bits: u64) -> bool {
    magnitude(bits) == 0
}

/// Position of a pattern in the IEEE 754 total order: negative patterns come
/// first, larger magnitudes further down; non-negative patterns follow in
/// increasing magnitude. `-0.0` is directly below `+0.0`.
pub open spec fn total_key(bits: u64) -> int {
    if bits < SIGN_BIT {
        bits as int
    } else {
        SIGN_BIT - 1 - bits
    }
}

/// Numeric (partial-order) equality: NaN equals nothing, the two zeros are
/// equal, every other value equals only itself.
pub open spec fn numerically_equal(a: u64, b: u64) -> bool {
    !is_nan(a) && !is_nan(b) && (a == b || (is_zero(a) && is_zero(b)))
}

/// An inclusive range of values, in either order.
#[derive(Clone, Copy, Debug, PartialEq, Eq, Structural)]
pub struct ClampRange {
    pub start: u64,
    pub end: u64,
}

impl ClampRange {
    /// The lower end once the range is put in order.
    pub open spec fn low(self) -> u64 {
        if total_key(self.start) > total_key(self.end) {
            self.end
        } else {
            self.start
        }
    }

    /// The upper end once the range is put in order.
    pub open spec fn high(self) -> u64 {
        if total_key(self.start) > total_key(self.end) {
            self.start
        } else {
            self.end
        }
    }

    /// Whether `x` lies in the ordered range.
    pub open spec fn contains(self, x: u64) -> bool {
        total_key(self.low()) <= total_key(x) <= total_key(self.high())
    }

    /// The value `x` is clamped to: the lower end at or below it, the upper
    /// end at or above it, `x` itself strictly between.
    pub open spec fn clamped(self, x: u64) -> u64 {
        if total_key(x) <= total_key(self.low()) {
            self.low()
        } else if total_key(x) >= total_key(self.high()) {
            self.high()
        } else {
            x
        }
    }

    /// The range from negative to positive infinity.
    pub fn unbounded() -> (r: Self)
        ensures
            r.start == NEG_INFINITY_BITS,
            r.end == INFINITY_BITS,
    {
        ClampRange { start: NEG_INFINITY_BITS, end: INFINITY_BITS }
    }
}

/// Whether `a` is strictly below `b` in the total order.
pub fn total_lt(a: u64, b: u64) -> (r: bool)
    ensures
        r == (total_key(a) < total_key(b)),
{
    if a >= SIGN_BIT {
        if b >= SIGN_BIT {
            a > b
        } else {
            true
        }
    } else {
        if b >= SIGN_BIT {
            false
        } else {
            a < b
        }
    }
}

/// Whether the pattern is a NaN.
pub fn bits_is_nan(bits: u64) -> (r: bool)
    ensures
        r == is_nan(bits),
{
    if bits >= SIGN_BIT {
        bits - SIGN_BIT > INFINITY_BITS
    } else {
        bits > INFINITY_BITS
    }
}

/// Whether the pattern is one of the two zeros.
pub fn bits_is_zero(bits: u64) -> (r: bool)
    ensures
        r == is_zero(bits),
{
    bits == ZERO_BITS || bits == SIGN_BIT
}

/// Numeric equality of two patterns.
pub fn bits_numerically_equal(a: u64, b: u64) -> (r: bool)
    ensures
        r == numerically_equal(a, b),
{
    if bits_is_nan(a) || bits_is_nan(b) {
        false
    } else {
        a == b || (bits_is_zero(a) && bits_is_zero(b))
    }
}

/// Clamps `x` into `range` under the total order. The range may be given in
/// either order. A value equal to a bound comes back as that bound.
pub fn clamp_to_range(x: u64, range: ClampRange) -> (r: u64)
    ensures
        r == range.clamped(x),
        range.contains(r),
        range.contains(x) ==> r == x,
{
    let mut min: u64 = range.start;
    let mut max: u64 = range.end;
    if total_lt(max, min) {
        min = range.end;
        max = range.start;
    }
    if !total_lt(min, x) {
        min
    } else if !total_lt(x, max) {
        max
    } else {
        x
    }
}

/// Two patterns at the same position of the total order are the same pattern.
pub proof fn lemma_total_key_injective(a: u64, b: u64)
    ensures
        total_key(a) == total_key(b) <==> a == b,
{
}

/// A clamped value always lies in the ordered range, whichever way round the
/// range was given.
pub proof fn lemma_clamp_within_range(x: u64, range: ClampRange)
    ensures
        range.contains(range.clamped(x)),
        total_key(range.low()) <= total_key(range.high()),
{
}

/// Clamping either end of a range to that range gives back exactly that end,
/// sign of zero included.
pub proof fn lemma_clamp_of_bound(range: ClampRange)
    ensures
        range.clamped(range.start) == range.start,
        range.clamped(range.end) == range.end,
{
}

/// Clamping leaves a value of the range as it is, so clamping twice is
/// clamping once.
pub proof fn lemma_clamp_idempotent(x: u64, range: ClampRange)
    ensures
        range.contains(x) ==> range.clamped(x) == x,
        range.clamped(range.clamped(x)) == range.clamped(x),
{
}

/// Swapping the ends of a range changes nothing.
pub proof fn lemma_clamp_order_independent(x: u64, range: ClampRange)
    ensures
        (ClampRange { start: range.end, end: range.start }).clamped(x) == range.clamped(x),
{
}

} // verus!
