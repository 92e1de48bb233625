//! Between binary64 bit patterns and 64-bit integers: the whole part of a
//! value, and the value of a whole number.

use vstd::prelude::*;
use vstd::arithmetic::power2::pow2;
use vstd::arithmetic::power2::lemma2_to64;
use vstd::arithmetic::power2::lemma2_to64_rest;
use vstd::arithmetic::power2::lemma_pow2_unfold;
use vstd::arithmetic::power2::lemma_pow2_strictly_increases;
use crate::total_order::INFINITY_BITS;
use crate::total_order::SIGN_BIT;
use crate::total_order::is_nan;
use crate::total_order::is_negative;
use crate::total_order::is_zero;
use crate::total_order::magnitude;

verus! {

/// Two to the number of fraction bits.
pub const FRACTION_SCALE: u64 = 0x10_0000_0000_0000;

/// The exponent field of values from one up to, not including, two.
pub const EXPONENT_BIAS: u64 = 1023;

/// The exponent field at which the significand is the value itself.
pub const EXPONENT_WHOLE: u64 = 1075;

/// The exponent field from which on a magnitude is at least two to the 63.
pub const EXPONENT_HUGE: u64 = 1086;

/// The largest magnitude that is told apart: two to the 63.
pub const MAGNITUDE_CAP: u64 = 0x8000_0000_0000_0000;

/// The exponent field of the pattern.
pub open spec fn exponent_field(bits: u64) -> int {
    magnitude(bits) / (FRACTION_SCALE as int)
}

/// The significand of a normal value, hidden bit included.
pub open spec fn significand(bits: u64) -> int {
    FRACTION_SCALE + magnitude(bits) % (FRACTION_SCALE as int)
}

/// The absolute value with its fraction cut off, capped at two to the 63;
/// zero for a NaN. A normal value is its significand times two to the
/// exponent field less 1075.
pub open spec fn integer_magnitude(bits: u64) -> nat {
    let e = exponent_field(bits);
    if is_nan(bits) || e < EXPONENT_BIAS {
        0
    } else if e >= EXPONENT_HUGE {
        MAGNITUDE_CAP as nat
    } else if e >= EXPONENT_WHOLE {
        (significand(bits) * pow2((e - EXPONENT_WHOLE) as nat)) as nat
    } else {
        (significand(bits) / (pow2((EXPONENT_WHOLE - e) as nat) as int)) as nat
    }
}

/// The value cut to a signed 64-bit integer: towards zero, the nearest end
/// of the range for a value outside it, zero for a NaN.
pub open spec fn truncated(bits: u64) -> int {
    let m = integer_magnitude(bits);
    if is_negative(bits) {
        -m
    } else if m > i64::MAX {
        i64::MAX as int
    } else {
        m as int
    }
}

/// The absolute value cut to a signed 64-bit integer.
pub open spec fn truncated_abs(bits: u64) -> nat {
    let m = integer_magnitude(bits);
    if m > i64::MAX {
        i64::MAX as nat
    } else {
        m
    }
}

/// Whether the value is numerically below zero: negative, and neither a
/// zero nor a NaN.
pub open spec fn below_zero(bits: u64) -> bool {
    is_negative(bits) && !is_zero(bits) && !is_nan(bits)
}

/// Two to the `k`.
pub fn power_of_two(k: u64) -> (p: u64)
    requires
        k <= 52,
    ensures
        p == pow2(k as nat),
        1 <= p <= FRACTION_SCALE,
{
    let mut p: u64 = 1;
    let mut i: u64 = 0;
    proof {
        lemma2_to64();
        lemma2_to64_rest();
    }
    while i < k
        invariant
            i <= k <= 52,
            p == pow2(i as nat),
            1 <= p <= FRACTION_SCALE,
            pow2(52) == 0x10_0000_0000_0000,
        decreases k - i,
    {
        proof {
            lemma_pow2_unfold((i + 1) as nat);
            if i + 1 < 52 {
                lemma_pow2_strictly_increases((i + 1) as nat, 52);
            }
        }
        p = p * 2;
        i = i + 1;
    }
    p
}

/// Executable form of [`integer_magnitude`].
pub fn truncate_magnitude(bits: u64) -> (m: u64)
    ensures
        m == integer_magnitude(bits),
        m <= MAGNITUDE_CAP,
{
    let mag: u64 = if bits >= SIGN_BIT {
        bits - SIGN_BIT
    } else {
        bits
    };
    if mag > INFINITY_BITS {
        return 0;
    }
    let e: u64 = mag / FRACTION_SCALE;
    let sig: u64 = FRACTION_SCALE + mag % FRACTION_SCALE;
    if e < EXPONENT_BIAS {
        0
    } else if e >= EXPONENT_HUGE {
        MAGNITUDE_CAP
    } else if e >= EXPONENT_WHOLE {
        let p: u64 = power_of_two(e - EXPONENT_WHOLE);
        proof {
            lemma2_to64();
            if e - EXPONENT_WHOLE < 10 {
                lemma_pow2_strictly_increases((e - EXPONENT_WHOLE) as nat, 10);
            }
            assert(sig * p < 0x8000_0000_0000_0000) by (nonlinear_arith)
                requires
                    sig < 0x20_0000_0000_0000,
                    p <= 0x400,
            ;
        }
        sig * p
    } else {
        let p: u64 = power_of_two(EXPONENT_WHOLE - e);
        sig / p
    }
}

/// The value cut to a signed 64-bit integer.
pub fn truncate(bits: u64) -> (n: i64)
    ensures
        n == truncated(bits),
{
    let m: u64 = truncate_magnitude(bits);
    if bits >= SIGN_BIT {
        if m == MAGNITUDE_CAP {
            i64::MIN
        } else {
            -(m as i64)
        }
    } else if m == MAGNITUDE_CAP {
        i64::MAX
    } else {
        m as i64
    }
}

/// The absolute value cut to a signed 64-bit integer.
pub fn truncate_abs(bits: u64) -> (m: u64)
    ensures
        m == truncated_abs(bits),
        m <= i64::MAX,
{
    let m: u64 = truncate_magnitude(bits);
    if m == MAGNITUDE_CAP {
        0x7FFF_FFFF_FFFF_FFFF
    } else {
        m
    }
}

/// Executable form of [`below_zero`].
pub fn bits_below_zero(bits: u64) -> (r: bool)
    ensures
        r == below_zero(bits),
{
    bits > SIGN_BIT && bits - SIGN_BIT <= INFINITY_BITS
}

/// Cutting never moves a value away from zero, and the integer it gives has
/// the sign of the value.
pub proof fn lemma_truncated_sign(bits: u64)
    ensures
        i64::MIN <= truncated(bits) <= i64::MAX,
        truncated(bits) < 0 ==> below_zero(bits),
        truncated(bits) > 0 ==> !is_negative(bits) && !is_zero(bits),
        truncated_abs(bits) == if truncated(bits) == i64::MIN {
            i64::MAX as int
        } else if truncated(bits) < 0 {
            -truncated(bits)
        } else {
            truncated(bits)
        },
{
    let e = exponent_field(bits);
    if !is_nan(bits) && EXPONENT_BIAS <= e < EXPONENT_HUGE {
        lemma2_to64();
        if e >= EXPONENT_WHOLE {
            let k = (e - EXPONENT_WHOLE) as nat;
            if k < 10 {
                lemma_pow2_strictly_increases(k, 10);
            }
            assert(significand(bits) * pow2(k) < 0x8000_0000_0000_0000) by (nonlinear_arith)
                requires
                    0 <= significand(bits) < 0x20_0000_0000_0000,
                    pow2(k) <= 0x400,
            ;
            assert(significand(bits) * pow2(k) >= 0) by (nonlinear_arith)
                requires
                    0 <= significand(bits),
            ;
        } else {
            let k = (EXPONENT_WHOLE - e) as nat;
            vstd::arithmetic::power2::lemma_pow2_pos(k);
            assert(0 <= significand(bits) / (pow2(k) as int) <= significand(bits))
                by (nonlinear_arith)
                requires
                    0 <= significand(bits),
                    pow2(k) >= 1,
            ;
        }
    }
}

/// The number of binary digits of `m`; none for zero.
pub open spec fn bit_length(m: nat) -> nat
    decreases m,
{
    if m == 0 {
        0
    } else {
        1 + bit_length(m / 2)
    }
}

/// `m` in units of `unit`, rounded to the nearest unit, a tie to the even
/// count.
pub open spec fn rounded_quotient(m: nat, unit: nat) -> nat {
    let q = m / unit;
    let r = m % unit;
    if 2 * r > unit || (2 * r == unit && q % 2 == 1) {
        q + 1
    } else {
        q
    }
}

/// The bit pattern of the non-negative integer `m` as a binary64 value. Up
/// to 53 binary digits are kept as they are; a longer number is rounded to
/// 53 digits, nearest with ties to even, and a round-up to 54 digits carries
/// into the exponent field.
pub open spec fn magnitude_bits(m: nat) -> nat {
    let len = bit_length(m);
    if m == 0 {
        0
    } else if len <= 53 {
        ((EXPONENT_BIAS - 1 + len) * FRACTION_SCALE + m * pow2((53 - len) as nat)
            - FRACTION_SCALE) as nat
    } else {
        ((EXPONENT_BIAS - 1 + len) * FRACTION_SCALE + rounded_quotient(
            m,
            pow2((len - 53) as nat),
        ) - FRACTION_SCALE) as nat
    }
}

/// The bit pattern of the integer `n` as a binary64 value.
pub open spec fn integer_bits(n: i64) -> u64 {
    if n < 0 {
        (magnitude_bits((-n) as nat) + SIGN_BIT) as u64
    } else {
        magnitude_bits(n as nat) as u64
    }
}

/// A positive number lies between the powers of two that its number of
/// binary digits names.
pub proof fn lemma_bit_length_bounds(m: nat)
    requires
        m > 0,
    ensures
        bit_length(m) >= 1,
        pow2((bit_length(m) - 1) as nat) <= m < pow2(bit_length(m)),
    decreases m,
{
    lemma2_to64();
    if m > 1 {
        lemma_bit_length_bounds(m / 2);
        lemma_pow2_unfold(bit_length(m / 2));
        lemma_pow2_unfold(bit_length(m));
    } else {
        assert(bit_length(0) == 0);
        assert(bit_length(1) == 1 + bit_length(0));
    }
}

/// Counts the binary digits of `m`.
pub fn bit_len(m: u64) -> (len: u64)
    ensures
        len == bit_length(m as nat),
        len <= 64,
{
    proof {
        lemma2_to64();
        if m > 0 {
            lemma_bit_length_bounds(m as nat);
            if bit_length(m as nat) > 64 {
                lemma_pow2_strictly_increases(64, (bit_length(m as nat) - 1) as nat);
            }
        }
    }
    let mut t: u64 = m;
    let mut len: u64 = 0;
    while t > 0
        invariant
            bit_length(m as nat) == len + bit_length(t as nat),
            bit_length(m as nat) <= 64,
        decreases t,
    {
        t = t / 2;
        len = len + 1;
    }
    len
}

/// The bit pattern of a magnitude of at most two to the 63.
pub fn magnitude_to_bits(m: u64) -> (bits: u64)
    requires
        m <= MAGNITUDE_CAP,
    ensures
        bits == magnitude_bits(m as nat),
        bits < SIGN_BIT,
{
    if m == 0 {
        return 0;
    }
    let len: u64 = bit_len(m);
    proof {
        lemma_bit_length_bounds(m as nat);
        lemma2_to64();
        lemma2_to64_rest();
    }
    if len <= 53 {
        let p: u64 = power_of_two(53 - len);
        proof {
            vstd::arithmetic::power2::lemma_pow2_adds(len as nat, (53 - len) as nat);
            assert(m * p < pow2(len as nat) * p) by (nonlinear_arith)
                requires
                    m < pow2(len as nat),
                    p > 0,
            ;
        }
        (EXPONENT_BIAS - 1 + len) * FRACTION_SCALE + m * p - FRACTION_SCALE
    } else {
        let unit: u64 = power_of_two(len - 53);
        proof {
            lemma_pow2_strictly_increases(0, (len - 53) as nat);
        }
        let q: u64 = m / unit;
        let r: u64 = m % unit;
        proof {
            vstd::arithmetic::power2::lemma_pow2_adds(53, (len - 53) as nat);
            assert(q < pow2(53)) by (nonlinear_arith)
                requires
                    q == m / unit,
                    unit >= 2,
                    m < pow2(53) * unit,
            ;
        }
        let rounded: u64 = if 2 * r > unit || (2 * r == unit && q % 2 == 1) {
            q + 1
        } else {
            q
        };
        (EXPONENT_BIAS - 1 + len) * FRACTION_SCALE + rounded - FRACTION_SCALE
    }
}

/// The integer as a binary64 value: exact up to 53 binary digits, beyond
/// that rounded to the nearest value, ties to even.
pub fn integer_to_bits(n: i64) -> (bits: u64)
    ensures
        bits == integer_bits(n),
{
    if n >= 0 {
        magnitude_to_bits(n as u64)
    } else if n == i64::MIN {
        magnitude_to_bits(MAGNITUDE_CAP) + SIGN_BIT
    } else {
        magnitude_to_bits((-n) as u64) + SIGN_BIT
    }
}

/// An integer of at most 53 binary digits is kept exactly: its value, cut to
/// an integer, is the integer again, and it is below zero only if the
/// integer is.
pub proof fn lemma_integer_bits_exact(n: i64)
    requires
        -0x20_0000_0000_0000 < n < 0x20_0000_0000_0000,
    ensures
        truncated(integer_bits(n)) == n,
        !is_nan(integer_bits(n)),
        below_zero(integer_bits(n)) == (n < 0),
        is_zero(integer_bits(n)) == (n == 0),
{
    let m: nat = if n < 0 {
        (-n) as nat
    } else {
        n as nat
    };
    if m > 0 {
        let len = bit_length(m);
        lemma_bit_length_bounds(m);
        lemma2_to64();
        lemma2_to64_rest();
        if len > 53 {
            lemma_pow2_strictly_increases(53, (len - 1) as nat);
        }
        let k = (53 - len) as nat;
        let p = pow2(k);
        vstd::arithmetic::power2::lemma_pow2_adds(len, k);
        vstd::arithmetic::power2::lemma_pow2_adds((len - 1) as nat, k);
        vstd::arithmetic::power2::lemma_pow2_pos(k);
        assert(pow2((len - 1) as nat) * p <= m * p < pow2(len) * p) by (nonlinear_arith)
            requires
                pow2((len - 1) as nat) <= m < pow2(len),
                p > 0,
        ;
        assert((m * p) / p == m) by (nonlinear_arith)
            requires
                p > 0,
        ;
        let body = magnitude_bits(m);
        let e = EXPONENT_BIAS - 1 + len;
        assert(body == e * FRACTION_SCALE + (m * p - FRACTION_SCALE));
        let bits = integer_bits(n);
        assert(magnitude(bits) == body);
        assert(exponent_field(bits) == e);
        assert(significand(bits) == m * p);
        if e >= EXPONENT_WHOLE {
            assert(k == 0);
            assert(m * p * pow2(0) == m) by (nonlinear_arith)
                requires
                    p == 1,
                    pow2(0) == 1,
            ;
        }
    }
}

} // verus!
