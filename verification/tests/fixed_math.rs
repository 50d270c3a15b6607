//! Fixed-point arithmetic and trigonometry checks against exact values
//! and against floating-point references.

use turret_sim::angle::{asin_fx, atan_fx, cos_fx, norm_angle, sin_fx, HALF_PI, PI};
use turret_sim::fixed::{div_const, fx_div, fx_mul, fx_sqrt, SCALE};

fn close(a: i64, b: f64, tol: f64) -> bool {
    ((a as f64) / 1e6 - b).abs() <= tol
}

#[test]
fn mul_rounds_toward_zero() {
    assert_eq!(fx_mul(1_500_000, 2_000_000), 3_000_000);
    assert_eq!(fx_mul(-1_500_000, 2_000_000), -3_000_000);
    assert_eq!(fx_mul(1, 1), 0);
    assert_eq!(fx_mul(-1, 1), 0);
    assert_eq!(fx_mul(999_999, 1_000), 999);
    assert_eq!(fx_mul(-999_999, 1_000), -999);
}

#[test]
fn div_rounds_toward_zero() {
    assert_eq!(fx_div(1_000_000, 3_000_000), 333_333);
    assert_eq!(fx_div(-1_000_000, 3_000_000), -333_333);
    assert_eq!(fx_div(1_000_000, -3_000_000), -333_333);
    assert_eq!(div_const(7, 2), 3);
    assert_eq!(div_const(-7, 2), -3);
}

#[test]
fn sqrt_exact_squares() {
    assert_eq!(fx_sqrt(0), 0);
    assert_eq!(fx_sqrt(SCALE), SCALE);
    assert_eq!(fx_sqrt(4_000_000), 2_000_000);
    assert_eq!(fx_sqrt(25_000_000), 5_000_000);
}

#[test]
fn sqrt_rounds_down() {
    let r = fx_sqrt(2_000_000);
    assert!(close(r, 2f64.sqrt(), 1e-5));
    assert!((r as i128) * (r as i128) <= 2_000_000i128 * 1_000_000);
}

#[test]
fn norm_angle_wraps_whole_turns() {
    assert_eq!(norm_angle(0), 0);
    assert_eq!(norm_angle(PI), PI);
    assert_eq!(norm_angle(PI + 1), PI + 1 - 2 * PI);
    assert_eq!(norm_angle(7 * PI), PI);
    assert_eq!(norm_angle(-7 * PI), -PI);
}

#[test]
fn sin_matches_reference() {
    for (a, x) in [
        (0i64, 0.0f64),
        (HALF_PI, 1.5707963),
        (PI, 3.1415926),
        (-HALF_PI, -1.5707963),
        (463_648, 0.463648),
        (2_500_000, 2.5),
        (-2_500_000, -2.5),
        (9_000_000, 9.0),
    ] {
        assert!(close(sin_fx(a), x.sin(), 1e-3), "sin({a})");
    }
}

#[test]
fn cos_matches_reference() {
    for (a, x) in [
        (0i64, 0.0f64),
        (HALF_PI, 1.5707963),
        (PI, 3.1415926),
        (-PI, -3.1415926),
        (463_648, 0.463648),
        (2_500_000, 2.5),
        (-9_000_000, -9.0),
    ] {
        assert!(close(cos_fx(a), x.cos(), 1e-3), "cos({a})");
    }
}

#[test]
fn atan_matches_reference() {
    for (t, x) in [
        (0i64, 0.0f64),
        (500_000, 0.5),
        (1_000_000, 1.0),
        (-1_000_000, -1.0),
        (2_000_000, 2.0),
        (10_000_000, 10.0),
        (-10_000_000, -10.0),
        (1_000_000_000, 1000.0),
    ] {
        assert!(close(atan_fx(t), x.atan(), 1e-3), "atan({t})");
    }
}

#[test]
fn atan_of_half_is_the_aim_angle() {
    // atan(1/2) = 0.46365 radians: the raw aim angle of the fixed arena.
    let r = atan_fx(500_000);
    assert!((r - 463_648).abs() <= 100, "got {r}");
}

#[test]
fn asin_matches_reference_and_clamps() {
    for (u, x) in [(0i64, 0.0f64), (500_000, 0.5), (-500_000, -0.5), (900_000, 0.9)] {
        assert!(close(asin_fx(u), x.asin(), 2e-3), "asin({u})");
    }
    assert_eq!(asin_fx(SCALE), HALF_PI);
    assert_eq!(asin_fx(2 * SCALE), HALF_PI);
    assert_eq!(asin_fx(-2 * SCALE), -HALF_PI);
}
