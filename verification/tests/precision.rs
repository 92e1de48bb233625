use drag_value::precision::{
    base_decimals, check_bounds, infer_decimals, DecimalRange, DECIMAL_HEADROOM,
    MAX_AUTO_DECIMALS,
};

#[test]
fn base_decimals_is_confined_to_zero_through_fifteen() {
    assert_eq!(base_decimals(-5, false), 0);
    assert_eq!(base_decimals(0, false), 0);
    assert_eq!(base_decimals(2, false), 2);
    assert_eq!(base_decimals(15, false), 15);
    assert_eq!(base_decimals(16, false), 15);
    assert_eq!(base_decimals(i64::MAX, false), 15);
    assert_eq!(base_decimals(i64::MIN, false), 0);
    assert_eq!(MAX_AUTO_DECIMALS, 15);
    assert_eq!(DECIMAL_HEADROOM, 2);
}

#[test]
fn slow_mode_adds_one_decimal() {
    assert_eq!(base_decimals(2, true), 3);
    assert_eq!(base_decimals(100, true), 16);
    assert_eq!(base_decimals(-1, true), 1);
}

#[test]
fn inferred_range_without_a_maximum_has_two_decimals_of_headroom() {
    assert_eq!(infer_decimals(2, false, 0, None), DecimalRange { min: 2, max: 4 });
    assert_eq!(infer_decimals(2, true, 0, None), DecimalRange { min: 3, max: 5 });
    assert_eq!(infer_decimals(-3, false, 0, None), DecimalRange { min: 0, max: 2 });
}

#[test]
fn inferred_precision_is_confined_to_the_configured_bounds() {
    assert_eq!(infer_decimals(2, false, 0, Some(1)), DecimalRange { min: 1, max: 1 });
    assert_eq!(infer_decimals(2, false, 3, None), DecimalRange { min: 3, max: 4 });
    assert_eq!(infer_decimals(2, false, 3, Some(8)), DecimalRange { min: 3, max: 8 });
    assert_eq!(infer_decimals(5, false, 3, Some(8)), DecimalRange { min: 5, max: 8 });
    assert_eq!(infer_decimals(0, false, 0, Some(0)), DecimalRange { min: 0, max: 0 });
    assert_eq!(infer_decimals(9, true, 4, Some(4)), DecimalRange { min: 4, max: 4 });
}

#[test]
fn bounds_check_tells_when_no_precision_can_be_chosen() {
    assert!(check_bounds(2, false, 0, None));
    assert!(check_bounds(2, false, 4, None));
    assert!(!check_bounds(2, false, 5, None));
    assert!(check_bounds(2, true, 5, None));
    assert!(check_bounds(0, false, 3, Some(3)));
    assert!(!check_bounds(0, false, 4, Some(3)));
}

#[test]
fn precision_never_rises_with_speed_nor_falls_in_slow_mode() {
    for max in [None, Some(0usize), Some(3), Some(20)] {
        let mut previous: Option<usize> = None;
        for log_ceil in (-3..20).rev() {
            if !check_bounds(log_ceil, false, 0, max) {
                continue;
            }
            let normal = infer_decimals(log_ceil, false, 0, max);
            let slow = infer_decimals(log_ceil, true, 0, max);
            assert!(slow.min >= normal.min);
            if let Some(p) = previous {
                assert!(normal.min <= p);
            }
            previous = Some(normal.min);
        }
    }
}
