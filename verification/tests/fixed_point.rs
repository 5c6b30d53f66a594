//! Exact-value tests for the saturating fixed-point arithmetic.

use tabular_rl::fixed::{SCALE, VAL_MAX, abs_diff, add_sat, max_i64, mean, mul_frac};

#[test]
fn mul_frac_exact_halving() {
    // 2.5 * 0.5 == 1.25
    assert_eq!(mul_frac(2_500_000, 500_000), 1_250_000);
}

#[test]
fn mul_frac_truncates_toward_zero() {
    // 1 micro-unit times 0.999999 truncates to zero
    assert_eq!(mul_frac(1, 999_999), 0);
    // -5 micro-units times 0.1 is -0.5 micro-units, truncated to zero
    assert_eq!(mul_frac(-5, 100_000), 0);
    // -1.5 * 0.5 == -0.75 exactly
    assert_eq!(mul_frac(-1_500_000, 500_000), -750_000);
}

#[test]
fn mul_frac_identity_and_zero() {
    assert_eq!(mul_frac(123_456, SCALE), 123_456);
    assert_eq!(mul_frac(123_456, 0), 0);
    assert_eq!(mul_frac(-987_654, SCALE), -987_654);
}

#[test]
fn add_sat_saturates_at_value_bound() {
    assert_eq!(add_sat(VAL_MAX, VAL_MAX), VAL_MAX);
    assert_eq!(add_sat(-VAL_MAX, -VAL_MAX), -VAL_MAX);
    assert_eq!(add_sat(VAL_MAX, -VAL_MAX), 0);
    assert_eq!(add_sat(2, 3), 5);
}

#[test]
fn abs_diff_and_max() {
    assert_eq!(abs_diff(3, 10), 7);
    assert_eq!(abs_diff(10, 3), 7);
    assert_eq!(abs_diff(-4, 4), 8);
    assert_eq!(max_i64(-3, 2), 2);
    assert_eq!(max_i64(5, 5), 5);
}

#[test]
fn mean_is_truncated_arithmetic_mean() {
    assert_eq!(mean(&vec![1, 2, 4]), 2); // 7 / 3 truncated
    assert_eq!(mean(&vec![-1, -2, -4]), -2); // -7 / 3 truncated toward zero
    assert_eq!(mean(&vec![]), 0);
    assert_eq!(mean(&vec![1_000_000, 2_000_000]), 1_500_000);
}
