//! Fixed-point scalar arithmetic.

use raymarcher::fixed::{fx_div, fx_mul, fx_pow, fx_sqrt, isqrt_u128, sat_add, sat_sub, SCALE};

#[test]
fn mul_whole_numbers() {
    assert_eq!(fx_mul(2 * SCALE, 3 * SCALE), 6 * SCALE);
}

#[test]
fn mul_fractions() {
    // 1.5 * 2.0 == 3.0
    assert_eq!(fx_mul(1_500_000, 2_000_000), 3_000_000);
    // 0.5 * 0.5 == 0.25
    assert_eq!(fx_mul(500_000, 500_000), 250_000);
}

#[test]
fn mul_truncates_toward_zero() {
    // (1e-6)^2 is far below one unit and truncates to zero.
    assert_eq!(fx_mul(1, 1), 0);
    assert_eq!(fx_mul(-1, 1), 0);
    assert_eq!(fx_mul(999_999, 1), 0);
}

#[test]
fn mul_negative() {
    assert_eq!(fx_mul(-1_500_000, 2_000_000), -3_000_000);
    assert_eq!(fx_mul(-1_500_000, -2_000_000), 3_000_000);
}

#[test]
fn mul_saturates() {
    assert_eq!(fx_mul(i64::MAX, 2 * SCALE), i64::MAX);
    assert_eq!(fx_mul(i64::MAX, -2 * SCALE), i64::MIN);
}

#[test]
fn div_basic() {
    assert_eq!(fx_div(1_000_000, 2_000_000), 500_000);
    assert_eq!(fx_div(1_000_000, 3_000_000), 333_333);
}

#[test]
fn div_truncates_toward_zero() {
    assert_eq!(fx_div(-1_000_000, 3_000_000), -333_333);
    assert_eq!(fx_div(1_000_000, -3_000_000), -333_333);
}

#[test]
fn div_by_zero_is_zero() {
    assert_eq!(fx_div(123_456, 0), 0);
    assert_eq!(fx_div(-123_456, 0), 0);
}

#[test]
fn sqrt_exact_squares() {
    assert_eq!(fx_sqrt(0), 0);
    assert_eq!(fx_sqrt(1_000_000), 1_000_000);
    assert_eq!(fx_sqrt(4_000_000), 2_000_000);
    assert_eq!(fx_sqrt(25_000_000), 5_000_000);
}

#[test]
fn sqrt_rounds_down() {
    // sqrt(2) == 1.41421356..., rounded down at the sixth decimal.
    assert_eq!(fx_sqrt(2_000_000), 1_414_213);
}

#[test]
fn isqrt_small_values() {
    assert_eq!(isqrt_u128(0), 0);
    assert_eq!(isqrt_u128(3), 1);
    assert_eq!(isqrt_u128(4), 2);
    assert_eq!(isqrt_u128(10), 3);
}

#[test]
fn pow_basics() {
    assert_eq!(fx_pow(500_000, 0), SCALE);
    assert_eq!(fx_pow(500_000, 1), 500_000);
    assert_eq!(fx_pow(500_000, 2), 250_000);
    assert_eq!(fx_pow(2_000_000, 5), 32_000_000);
}

#[test]
fn saturating_add_sub() {
    assert_eq!(sat_add(i64::MAX, 1), i64::MAX);
    assert_eq!(sat_sub(i64::MIN, 1), i64::MIN);
    assert_eq!(sat_add(40, 2), 42);
    assert_eq!(sat_sub(40, 2), 38);
}
