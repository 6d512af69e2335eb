use corona_sim::fixed::{narrow, wide_quotient, Fixed, SCALE};

fn fx(raw: i64) -> Fixed {
    Fixed::from_raw(raw)
}

#[test]
fn one_is_a_billion_raw_units() {
    assert_eq!(Fixed::one().raw, 1_000_000_000);
    assert_eq!(SCALE, 1_000_000_000);
    assert_eq!(Fixed::zero().raw, 0);
}

#[test]
fn from_units_scales_and_detects_overflow() {
    assert_eq!(Fixed::from_units(3), Some(fx(3_000_000_000)));
    assert_eq!(Fixed::from_units(-7), Some(fx(-7_000_000_000)));
    assert_eq!(Fixed::from_units(9_223_372_036), Some(fx(9_223_372_036_000_000_000)));
    assert_eq!(Fixed::from_units(9_223_372_037), None);
}

#[test]
fn sums_and_differences_are_exact() {
    assert_eq!(fx(1_500_000_000).checked_add(fx(250_000_000)), Some(fx(1_750_000_000)));
    assert_eq!(fx(2_000_000_000).checked_sub(fx(500_000_000)), Some(fx(1_500_000_000)));
    assert_eq!(fx(i64::MAX).checked_add(fx(1)), None);
    assert_eq!(fx(i64::MIN).checked_sub(fx(1)), None);
    assert_eq!(fx(i64::MAX).checked_add(fx(-1)), Some(fx(i64::MAX - 1)));
}

#[test]
fn products_round_toward_zero() {
    // 1.5 * 1.1 = 1.65
    assert_eq!(fx(1_500_000_000).checked_mul(fx(1_100_000_000)), Some(fx(1_650_000_000)));
    // 0.000000001 * 0.5 rounds to zero from either side
    assert_eq!(fx(1).checked_mul(fx(500_000_000)), Some(fx(0)));
    assert_eq!(fx(-1).checked_mul(fx(500_000_000)), Some(fx(0)));
    // 0.000000003 * 0.5 = 0.0000000015 rounds to 0.000000001
    assert_eq!(fx(3).checked_mul(fx(500_000_000)), Some(fx(1)));
    assert_eq!(fx(-3).checked_mul(fx(500_000_000)), Some(fx(-1)));
    assert_eq!(fx(-3).checked_mul(fx(-500_000_000)), Some(fx(1)));
}

#[test]
fn products_that_do_not_fit_are_refused() {
    assert_eq!(fx(i64::MAX).checked_mul(fx(2_000_000_000)), None);
    assert_eq!(fx(i64::MIN).checked_mul(fx(-1_000_000_000)), None);
    assert_eq!(fx(i64::MAX).checked_mul(fx(1_000_000_000)), Some(fx(i64::MAX)));
}

#[test]
fn ratios_round_toward_zero() {
    // 1 / 3
    assert_eq!(fx(1_000_000_000).checked_div(fx(3_000_000_000)), Some(fx(333_333_333)));
    assert_eq!(fx(-1_000_000_000).checked_div(fx(3_000_000_000)), Some(fx(-333_333_333)));
    assert_eq!(fx(1_000_000_000).checked_div(fx(-3_000_000_000)), Some(fx(-333_333_333)));
    assert_eq!(fx(-1_000_000_000).checked_div(fx(-3_000_000_000)), Some(fx(333_333_333)));
    // 0.01 / 2 = 0.005
    assert_eq!(fx(10_000_000).checked_div(fx(2_000_000_000)), Some(fx(5_000_000)));
}

#[test]
fn ratios_by_zero_or_out_of_range_are_refused() {
    assert_eq!(fx(1).checked_div(fx(0)), None);
    assert_eq!(fx(0).checked_div(fx(0)), None);
    assert_eq!(fx(i64::MAX).checked_div(fx(1)), None);
    assert_eq!(fx(0).checked_div(fx(5)), Some(fx(0)));
}

#[test]
fn scaling_by_whole_numbers() {
    assert_eq!(fx(100_000).checked_scale(12), Some(fx(1_200_000)));
    assert_eq!(fx(-5).checked_scale(-3), Some(fx(15)));
    assert_eq!(fx(i64::MAX).checked_scale(2), None);
}

#[test]
fn narrowing_keeps_what_fits() {
    assert_eq!(narrow(42), Some(fx(42)));
    assert_eq!(narrow(i64::MAX as i128), Some(fx(i64::MAX)));
    assert_eq!(narrow(i64::MIN as i128), Some(fx(i64::MIN)));
    assert_eq!(narrow(i64::MAX as i128 + 1), None);
    assert_eq!(narrow(i64::MIN as i128 - 1), None);
}

#[test]
fn wide_quotients_round_toward_zero() {
    assert_eq!(wide_quotient(7, 2), 3);
    assert_eq!(wide_quotient(-7, 2), -3);
    assert_eq!(wide_quotient(0, 9), 0);
    assert_eq!(wide_quotient(i128::MIN, 1 << 127), -1);
    assert_eq!(wide_quotient(i128::MAX, 1 << 127), 0);
    assert_eq!(wide_quotient(i128::MIN, u128::MAX), 0);
    assert_eq!(wide_quotient(i128::MIN, 1), i128::MIN);
}
