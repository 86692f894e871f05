//! Exact expected values for the fixed-point scalar, vector and
//! trigonometric helpers.

use boids::fixed::{div_trunc, isqrt_u128, mul_fixed, sat_add, sat_mul, sat_sub};
use boids::trig::{acos_milli, atan2_milli, cos_milli, sin_milli};
use boids::vec2::{magnitude, normalize, Vec2};

#[test]
fn isqrt_small_values() {
    assert_eq!(isqrt_u128(0), 0);
    assert_eq!(isqrt_u128(1), 1);
    assert_eq!(isqrt_u128(15), 3);
    assert_eq!(isqrt_u128(16), 4);
    assert_eq!(isqrt_u128(2_000_000), 1414);
}

#[test]
fn isqrt_large_values() {
    assert_eq!(isqrt_u128(u128::MAX), u64::MAX);
    assert_eq!(isqrt_u128(10_000_000_000_000_000_000_000_000), 3_162_277_660_168);
}

#[test]
fn saturating_ops_clip_at_the_ends() {
    assert_eq!(sat_add(i64::MAX, 1), i64::MAX);
    assert_eq!(sat_add(i64::MIN, -1), i64::MIN);
    assert_eq!(sat_add(2, 3), 5);
    assert_eq!(sat_sub(i64::MIN, 1), i64::MIN);
    assert_eq!(sat_sub(10, 4), 6);
    assert_eq!(sat_mul(i64::MAX, 2), i64::MAX);
    assert_eq!(sat_mul(i64::MIN, 2), i64::MIN);
    assert_eq!(sat_mul(-7, 6), -42);
}

#[test]
fn division_truncates_toward_zero() {
    assert_eq!(div_trunc(7, 2), 3);
    assert_eq!(div_trunc(-7, 2), -3);
    assert_eq!(div_trunc(99, 100), 0);
    assert_eq!(div_trunc(-99, 100), 0);
}

#[test]
fn fixed_product_scales_by_a_thousand() {
    assert_eq!(mul_fixed(1500, 2000), 3000);
    assert_eq!(mul_fixed(-1500, 2000), -3000);
    assert_eq!(mul_fixed(100, 100), 10);
    assert_eq!(mul_fixed(999, 1), 0);
}

#[test]
fn magnitude_of_pythagorean_vector() {
    assert_eq!(magnitude(&Vec2 { x: 3000, y: 4000 }), 5000);
    assert_eq!(magnitude(&Vec2 { x: 0, y: 0 }), 0);
    assert_eq!(magnitude(&Vec2 { x: -3000, y: 4000 }), 5000);
}

#[test]
fn normalize_gives_unit_vector() {
    let n = normalize(&Vec2 { x: 3000, y: 4000 });
    assert_eq!(n, Vec2 { x: 600, y: 800 });
    let m = normalize(&Vec2 { x: -15_000, y: 0 });
    assert_eq!(m, Vec2 { x: -1000, y: 0 });
}

#[test]
fn normalize_guards_the_zero_vector() {
    assert_eq!(normalize(&Vec2 { x: 0, y: 0 }), Vec2 { x: 0, y: 0 });
}

#[test]
fn sine_and_cosine_at_cardinal_angles() {
    assert_eq!(sin_milli(0), 0);
    assert_eq!(sin_milli(1571), 1000);
    assert_eq!(sin_milli(3142), 0);
    assert!(sin_milli(4713) <= -999);
    assert_eq!(cos_milli(0), 1000);
    assert_eq!(cos_milli(1571), 0);
    assert!(cos_milli(3142) <= -999);
}

#[test]
fn arccos_at_the_ends() {
    assert_eq!(acos_milli(1000), 0);
    assert_eq!(acos_milli(0), 1414);
    assert!(acos_milli(500) > acos_milli(600));
}

#[test]
fn atan2_quadrants() {
    assert_eq!(atan2_milli(0, 0), 0);
    assert_eq!(atan2_milli(0, 1000), 0);
    assert_eq!(atan2_milli(1000, 0), 1571);
    assert_eq!(atan2_milli(0, -1000), 3142);
    assert_eq!(atan2_milli(-1000, 0), -1571);
    assert!(atan2_milli(1000, 1000) > 700 && atan2_milli(1000, 1000) < 900);
    assert!(atan2_milli(-1000, -1000) < -2300);
}
