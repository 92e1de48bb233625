use drag_value::total_order::{
    bits_is_nan, bits_is_zero, bits_numerically_equal, clamp_to_range, total_lt, ClampRange,
    INFINITY_BITS, NEG_INFINITY_BITS, ONE_BITS, QUARTER_BITS, SIGN_BIT, ZERO_BITS,
};
use std::cmp::Ordering;

fn clamp(x: f64, start: f64, end: f64) -> f64 {
    let range = ClampRange { start: start.to_bits(), end: end.to_bits() };
    f64::from_bits(clamp_to_range(x.to_bits(), range))
}

fn total_assert_eq(a: f64, b: f64) {
    assert!(matches!(a.total_cmp(&b), Ordering::Equal), "{} != {}", a, b);
}

fn samples() -> Vec<f64> {
    vec![
        f64::NEG_INFINITY,
        f64::MIN,
        -25.0,
        -1.0,
        -f64::MIN_POSITIVE,
        -5e-324,
        -0.0,
        0.0,
        5e-324,
        f64::MIN_POSITIVE,
        0.25,
        1.0,
        5.0,
        15.0,
        f64::MAX,
        f64::INFINITY,
        f64::NAN,
        -f64::NAN,
        f64::from_bits(0x7FF0_0000_0000_0001),
        f64::from_bits(0xFFF0_0000_0000_0001),
        f64::from_bits(0x7FFF_FFFF_FFFF_FFFF),
        f64::from_bits(0xFFFF_FFFF_FFFF_FFFF),
    ]
}

#[test]
fn test_total_cmp_clamp_to_range() {
    total_assert_eq(0.0_f64, clamp(-0.0, 0.0, f64::MAX));
    total_assert_eq(-0.0_f64, clamp(0.0, -1.0, -0.0));
    total_assert_eq(-1.0_f64, clamp(-25.0, -1.0, 1.0));
    total_assert_eq(5.0_f64, clamp(5.0, -1.0, 10.0));
    total_assert_eq(15.0_f64, clamp(25.0, -1.0, 15.0));
    total_assert_eq(1.0_f64, clamp(1.0, 1.0, 10.0));
    total_assert_eq(10.0_f64, clamp(10.0, 1.0, 10.0));
    total_assert_eq(5.0_f64, clamp(5.0, 10.0, 1.0));
    total_assert_eq(5.0_f64, clamp(15.0, 5.0, 1.0));
    total_assert_eq(1.0_f64, clamp(-5.0, 5.0, 1.0));
}

#[test]
fn constants_are_the_bit_patterns_they_name() {
    assert_eq!(ZERO_BITS, 0.0_f64.to_bits());
    assert_eq!(SIGN_BIT, (-0.0_f64).to_bits());
    assert_eq!(ONE_BITS, 1.0_f64.to_bits());
    assert_eq!(QUARTER_BITS, 0.25_f64.to_bits());
    assert_eq!(INFINITY_BITS, f64::INFINITY.to_bits());
    assert_eq!(NEG_INFINITY_BITS, f64::NEG_INFINITY.to_bits());
}

#[test]
fn total_lt_agrees_with_total_order_of_floats() {
    for a in samples() {
        for b in samples() {
            let expected = matches!(a.total_cmp(&b), Ordering::Less);
            assert_eq!(total_lt(a.to_bits(), b.to_bits()), expected, "{:?} < {:?}", a, b);
        }
    }
}

#[test]
fn numeric_equality_agrees_with_floats() {
    for a in samples() {
        assert_eq!(bits_is_nan(a.to_bits()), a.is_nan());
        assert_eq!(bits_is_zero(a.to_bits()), a == 0.0);
        for b in samples() {
            assert_eq!(bits_numerically_equal(a.to_bits(), b.to_bits()), a == b);
        }
    }
}

#[test]
fn clamp_agrees_with_the_total_order_rule() {
    for x in samples() {
        for lo in samples() {
            for hi in samples() {
                let (mut min, mut max) = (lo, hi);
                if min.total_cmp(&max) == Ordering::Greater {
                    (min, max) = (max, min);
                }
                let expected = match x.total_cmp(&min) {
                    Ordering::Less | Ordering::Equal => min,
                    Ordering::Greater => match x.total_cmp(&max) {
                        Ordering::Greater | Ordering::Equal => max,
                        Ordering::Less => x,
                    },
                };
                let got = clamp(x, lo, hi);
                assert_eq!(got.to_bits(), expected.to_bits());
                assert!(got.total_cmp(&min) != Ordering::Less);
                assert!(got.total_cmp(&max) != Ordering::Greater);
            }
        }
    }
}

#[test]
fn clamp_of_a_bound_is_that_bound() {
    for lo in samples() {
        for hi in samples() {
            assert_eq!(clamp(lo, lo, hi).to_bits(), lo.to_bits());
            assert_eq!(clamp(hi, lo, hi).to_bits(), hi.to_bits());
        }
    }
}

#[test]
fn clamp_keeps_the_sign_of_zero_of_the_bound() {
    assert_eq!(clamp(-0.0, 0.0, f64::MAX).to_bits(), 0.0_f64.to_bits());
    assert_eq!(clamp(0.0, -1.0, -0.0).to_bits(), (-0.0_f64).to_bits());
}

#[test]
fn unbounded_range_changes_no_number() {
    let range = ClampRange::unbounded();
    for x in [f64::MIN, -1.5, -0.0, 0.0, 3.0, f64::MAX, f64::INFINITY, f64::NEG_INFINITY] {
        assert_eq!(clamp_to_range(x.to_bits(), range), x.to_bits());
    }
}
