use drag_value::integral::{
    bit_len, bits_below_zero, integer_to_bits, magnitude_to_bits, power_of_two, truncate,
    truncate_abs, truncate_magnitude,
};

fn samples() -> Vec<f64> {
    let mut values = vec![
        0.0,
        -0.0,
        5e-324,
        -5e-324,
        f64::MIN_POSITIVE,
        0.25,
        0.5,
        0.999_999_999,
        1.0,
        1.5,
        1.999_999_999,
        2.0,
        -2.5,
        255.75,
        -255.75,
        4503599627370496.0,
        4503599627370496.5,
        4503599627370497.0,
        9007199254740992.0,
        9007199254740993.0,
        -9007199254740992.0,
        4611686018427387904.0,
        9223372036854774784.0,
        9223372036854775807.0,
        9223372036854775808.0,
        9223372036854777856.0,
        -9223372036854774784.0,
        -9223372036854775808.0,
        -9223372036854777856.0,
        1e19,
        -1e19,
        1e300,
        -1e300,
        f64::MAX,
        f64::MIN,
        f64::INFINITY,
        f64::NEG_INFINITY,
        f64::NAN,
        -f64::NAN,
        f64::from_bits(0x7FF0_0000_0000_0001),
        f64::from_bits(0xFFFF_FFFF_FFFF_FFFF),
    ];
    let mut seed: u64 = 0x9E37_79B9_7F4A_7C15;
    for _ in 0..20_000 {
        seed = seed.wrapping_mul(6364136223846793005).wrapping_add(1442695040888963407);
        values.push(f64::from_bits(seed));
        let exponent = 1000 + (seed >> 40) % 100;
        values.push(f64::from_bits((seed & 0x800F_FFFF_FFFF_FFFF) | (exponent << 52)));
    }
    values
}

#[test]
fn powers_of_two() {
    for k in 0..=52u64 {
        assert_eq!(power_of_two(k), 1u64 << k);
    }
}

#[test]
fn truncation_agrees_with_the_cast_of_the_number() {
    for x in samples() {
        assert_eq!(truncate(x.to_bits()), x as i64, "{:?}", x);
    }
}

#[test]
fn truncation_of_the_absolute_value_agrees_with_the_cast() {
    for x in samples() {
        assert_eq!(truncate_abs(x.to_bits()), x.abs() as i64 as u64, "{:?}", x);
    }
}

#[test]
fn magnitude_is_capped_at_two_to_the_63() {
    assert_eq!(truncate_magnitude(1e300_f64.to_bits()), 1u64 << 63);
    assert_eq!(truncate_magnitude((-1e300_f64).to_bits()), 1u64 << 63);
    assert_eq!(truncate_magnitude(f64::INFINITY.to_bits()), 1u64 << 63);
    assert_eq!(truncate_magnitude(9223372036854775808.0_f64.to_bits()), 1u64 << 63);
    assert_eq!(truncate_magnitude(9223372036854774784.0_f64.to_bits()), 9223372036854774784);
    assert_eq!(truncate_magnitude(f64::NAN.to_bits()), 0);
    assert_eq!(truncate_magnitude(0.75_f64.to_bits()), 0);
    assert_eq!(truncate_magnitude((-3.75_f64).to_bits()), 3);
}

#[test]
fn exact_truncations() {
    assert_eq!(truncate(2.9_f64.to_bits()), 2);
    assert_eq!(truncate((-2.9_f64).to_bits()), -2);
    assert_eq!(truncate(1e300_f64.to_bits()), i64::MAX);
    assert_eq!(truncate((-1e300_f64).to_bits()), i64::MIN);
    assert_eq!(truncate(f64::NAN.to_bits()), 0);
    assert_eq!(truncate_abs((-1e300_f64).to_bits()), i64::MAX as u64);
}

#[test]
fn below_zero_agrees_with_the_comparison() {
    for x in samples() {
        assert_eq!(bits_below_zero(x.to_bits()), x < 0.0, "{:?}", x);
    }
}

fn integers() -> Vec<i64> {
    let mut values = vec![
        0,
        1,
        -1,
        2,
        3,
        -3,
        255,
        (1 << 52) - 1,
        1 << 52,
        (1 << 53) - 1,
        1 << 53,
        (1 << 53) + 1,
        (1 << 53) + 2,
        (1 << 53) + 3,
        (1 << 54) + 2,
        (1 << 54) + 6,
        -((1 << 53) + 1),
        -((1 << 53) + 3),
        (1 << 62) + (1 << 9),
        (1 << 62) + (1 << 9) + 1,
        (1 << 62) + 3 * (1 << 9),
        i64::MAX - 1024,
        i64::MAX - 512,
        i64::MAX - 511,
        i64::MAX,
        i64::MIN,
        i64::MIN + 1,
        i64::MIN + 512,
        i64::MIN + 513,
    ];
    let mut seed: u64 = 0x2545_F491_4F6C_DD1D;
    for _ in 0..20_000 {
        seed = seed.wrapping_mul(6364136223846793005).wrapping_add(1442695040888963407);
        values.push(seed as i64);
        values.push((seed as i64) >> (seed % 64));
    }
    values
}

#[test]
fn bit_length_counts_the_binary_digits() {
    assert_eq!(bit_len(0), 0);
    assert_eq!(bit_len(1), 1);
    assert_eq!(bit_len(2), 2);
    assert_eq!(bit_len(3), 2);
    assert_eq!(bit_len(255), 8);
    assert_eq!(bit_len(256), 9);
    assert_eq!(bit_len(u64::MAX), 64);
    for m in integers() {
        assert_eq!(bit_len(m as u64), 64 - (m as u64).leading_zeros() as u64);
    }
}

#[test]
fn integer_to_bits_agrees_with_the_cast_of_the_integer() {
    for n in integers() {
        assert_eq!(integer_to_bits(n), (n as f64).to_bits(), "{}", n);
    }
}

#[test]
fn exact_bit_patterns_of_integers() {
    assert_eq!(integer_to_bits(0), 0);
    assert_eq!(integer_to_bits(1), 0x3FF0_0000_0000_0000);
    assert_eq!(integer_to_bits(-2), 0xC000_0000_0000_0000);
    assert_eq!(integer_to_bits(3), 0x4008_0000_0000_0000);
    assert_eq!(magnitude_to_bits(1 << 63), 0x43E0_0000_0000_0000);
    assert_eq!(integer_to_bits(i64::MAX), 0x43E0_0000_0000_0000);
    assert_eq!(integer_to_bits(i64::MIN), 0xC3E0_0000_0000_0000);
}

#[test]
fn ties_round_to_the_even_neighbour() {
    assert_eq!(f64::from_bits(integer_to_bits((1 << 53) + 1)), 9007199254740992.0);
    assert_eq!(f64::from_bits(integer_to_bits((1 << 53) + 3)), 9007199254740996.0);
    assert_eq!(f64::from_bits(integer_to_bits((1 << 54) + 2)), 18014398509481984.0);
    assert_eq!(f64::from_bits(integer_to_bits((1 << 54) + 6)), 18014398509481992.0);
}

#[test]
fn whole_values_survive_the_way_there_and_back() {
    for n in integers() {
        if n.unsigned_abs() < (1 << 53) {
            assert_eq!(truncate(integer_to_bits(n)), n);
        }
    }
}
