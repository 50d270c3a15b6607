//! Fixed-point angle arithmetic: normalization into `[-PI, PI]` and
//! polynomial approximations of sine, cosine, arctangent and arcsine.
//! Each executable function is specified exactly by a spec-level mirror,
//! so callers reason about the very value the code computes.

use vstd::prelude::*;
use crate::fixed::{
    SCALE, fx_abs, div_towards_zero, fx_mul_spec, fx_div_spec, fx_mul, fx_div, div_const,
    fx_sqrt_spec, fx_sqrt, lemma_fx_mul_bound, lemma_div_towards_zero_bound, lemma_fx_div_bound,
};

verus! {

/// One radian is `SCALE` raw steps; `PI` is the half turn.
pub const PI: i64 = 3_141_593;

/// A full turn.
pub const TWO_PI: i64 = 6_283_186;

/// A quarter turn.
pub const HALF_PI: i64 = 1_570_796;

/// An eighth of a turn.
pub const QUARTER_PI: i64 = 785_398;

/// The angle congruent to `a` modulo a full turn that lies in `[-PI, PI]`.
pub open spec fn norm_angle_spec(a: int) -> int
    decreases fx_abs(a),
{
    if a > PI as int {
        norm_angle_spec(a - TWO_PI as int)
    } else if a < -(PI as int) {
        norm_angle_spec(a + TWO_PI as int)
    } else {
        a
    }
}

/// Normalize an angle into `[-PI, PI]` by whole turns.
pub fn norm_angle(a: i64) -> (r: i64)
    requires
        fx_abs(a as int) <= 4_000_000_000_000_000_000,
    ensures
        r as int == norm_angle_spec(a as int),
        -(PI as int) <= r as int <= PI as int,
{
    let mut cur: i64 = a;
    while cur > PI
        invariant
            norm_angle_spec(cur as int) == norm_angle_spec(a as int),
            cur as int >= -(PI as int) || cur as int >= a as int - 0,
            fx_abs(cur as int) <= 4_000_000_000_000_000_000,
        decreases fx_abs(cur as int),
    {
        cur = cur - TWO_PI;
    }
    while cur < -PI
        invariant
            norm_angle_spec(cur as int) == norm_angle_spec(a as int),
            cur as int <= PI as int,
            fx_abs(cur as int) <= 4_000_000_000_000_000_000,
        decreases fx_abs(cur as int),
    {
        cur = cur + TWO_PI;
    }
    cur
}

/// Odd Taylor polynomial for sine on a reduced argument.
pub open spec fn sin_poly_spec(x: int) -> int {
    let x2 = fx_mul_spec(x, x);
    let x3 = fx_mul_spec(x2, x);
    let x5 = fx_mul_spec(x3, x2);
    let x7 = fx_mul_spec(x5, x2);
    let x9 = fx_mul_spec(x7, x2);
    x - div_towards_zero(x3, 6) + div_towards_zero(x5, 120) - div_towards_zero(x7, 5040)
        + div_towards_zero(x9, 362880)
}

fn sin_poly(x: i64) -> (r: i64)
    requires
        fx_abs(x as int) <= 1_600_000,
    ensures
        r as int == sin_poly_spec(x as int),
        fx_abs(r as int) <= 2_400_000,
{
    proof {
        lemma_fx_mul_bound(x as int, x as int, 1_600_000, 1_600_000);
    }
    let x2 = fx_mul(x, x);
    proof {
        lemma_fx_mul_bound(x2 as int, x as int, 2_560_000, 1_600_000);
    }
    let x3 = fx_mul(x2, x);
    proof {
        lemma_fx_mul_bound(x3 as int, x2 as int, 4_096_000, 2_560_000);
    }
    let x5 = fx_mul(x3, x2);
    proof {
        lemma_fx_mul_bound(x5 as int, x2 as int, 10_485_760, 2_560_000);
    }
    let x7 = fx_mul(x5, x2);
    proof {
        lemma_fx_mul_bound(x7 as int, x2 as int, 26_843_546, 2_560_000);
    }
    let x9 = fx_mul(x7, x2);
    proof {
        lemma_div_towards_zero_bound(x3 as int, 6, 4_096_000);
        lemma_div_towards_zero_bound(x5 as int, 120, 10_485_760);
        lemma_div_towards_zero_bound(x7 as int, 5040, 26_843_546);
        lemma_div_towards_zero_bound(x9 as int, 362880, 68_719_477);
    }
    x - div_const(x3, 6) + div_const(x5, 120) - div_const(x7, 5040) + div_const(x9, 362880)
}

/// Even Taylor polynomial for cosine on a reduced argument.
pub open spec fn cos_poly_spec(x: int) -> int {
    let x2 = fx_mul_spec(x, x);
    let x4 = fx_mul_spec(x2, x2);
    let x6 = fx_mul_spec(x4, x2);
    let x8 = fx_mul_spec(x6, x2);
    SCALE as int - div_towards_zero(x2, 2) + div_towards_zero(x4, 24) - div_towards_zero(x6, 720)
        + div_towards_zero(x8, 40320)
}

fn cos_poly(x: i64) -> (r: i64)
    requires
        fx_abs(x as int) <= 1_600_000,
    ensures
        r as int == cos_poly_spec(x as int),
        fx_abs(r as int) <= 2_600_000,
{
    proof {
        lemma_fx_mul_bound(x as int, x as int, 1_600_000, 1_600_000);
    }
    let x2 = fx_mul(x, x);
    proof {
        lemma_fx_mul_bound(x2 as int, x2 as int, 2_560_000, 2_560_000);
    }
    let x4 = fx_mul(x2, x2);
    proof {
        lemma_fx_mul_bound(x4 as int, x2 as int, 6_553_600, 2_560_000);
    }
    let x6 = fx_mul(x4, x2);
    proof {
        lemma_fx_mul_bound(x6 as int, x2 as int, 16_777_216, 2_560_000);
    }
    let x8 = fx_mul(x6, x2);
    proof {
        lemma_div_towards_zero_bound(x2 as int, 2, 2_560_000);
        lemma_div_towards_zero_bound(x4 as int, 24, 6_553_600);
        lemma_div_towards_zero_bound(x6 as int, 720, 16_777_216);
        lemma_div_towards_zero_bound(x8 as int, 40320, 42_949_673);
    }
    SCALE - div_const(x2, 2) + div_const(x4, 24) - div_const(x6, 720) + div_const(x8, 40320)
}

/// Sine of an angle: reduce into `[-PI, PI]`, fold into the central
/// quarter-turn band, then evaluate the polynomial.
pub open spec fn sin_spec(a: int) -> int {
    let x = norm_angle_spec(a);
    if x > HALF_PI as int {
        sin_poly_spec(PI as int - x)
    } else if x < -(HALF_PI as int) {
        sin_poly_spec(-(PI as int) - x)
    } else {
        sin_poly_spec(x)
    }
}

/// Fixed-point sine.
pub fn sin_fx(a: i64) -> (r: i64)
    requires
        fx_abs(a as int) <= 4_000_000_000_000_000_000,
    ensures
        r as int == sin_spec(a as int),
        fx_abs(r as int) <= 2_400_000,
{
    let x = norm_angle(a);
    if x > HALF_PI {
        sin_poly(PI - x)
    } else if x < -HALF_PI {
        sin_poly(-PI - x)
    } else {
        sin_poly(x)
    }
}

/// Cosine of an angle, by the same reduction as `sin_spec`.
pub open spec fn cos_spec(a: int) -> int {
    let x = norm_angle_spec(a);
    if x > HALF_PI as int {
        -cos_poly_spec(PI as int - x)
    } else if x < -(HALF_PI as int) {
        -cos_poly_spec(PI as int + x)
    } else {
        cos_poly_spec(x)
    }
}

/// Fixed-point cosine.
pub fn cos_fx(a: i64) -> (r: i64)
    requires
        fx_abs(a as int) <= 4_000_000_000_000_000_000,
    ensures
        r as int == cos_spec(a as int),
        fx_abs(r as int) <= 2_600_000,
{
    let x = norm_angle(a);
    if x > HALF_PI {
        -cos_poly(PI - x)
    } else if x < -HALF_PI {
        -cos_poly(PI + x)
    } else {
        cos_poly(x)
    }
}

/// Odd Taylor polynomial for arctangent on a small ratio.
pub open spec fn atan_core_spec(u: int) -> int {
    let u2 = fx_mul_spec(u, u);
    let u3 = fx_mul_spec(u2, u);
    let u5 = fx_mul_spec(u3, u2);
    let u7 = fx_mul_spec(u5, u2);
    let u9 = fx_mul_spec(u7, u2);
    u - div_towards_zero(u3, 3) + div_towards_zero(u5, 5) - div_towards_zero(u7, 7)
        + div_towards_zero(u9, 9)
}

fn atan_core(u: i64) -> (r: i64)
    requires
        fx_abs(u as int) <= 700_000,
    ensures
        r as int == atan_core_spec(u as int),
        fx_abs(r as int) <= 900_000,
{
    proof {
        lemma_fx_mul_bound(u as int, u as int, 700_000, 700_000);
    }
    let u2 = fx_mul(u, u);
    proof {
        lemma_fx_mul_bound(u2 as int, u as int, 490_000, 700_000);
    }
    let u3 = fx_mul(u2, u);
    proof {
        lemma_fx_mul_bound(u3 as int, u2 as int, 343_000, 490_000);
    }
    let u5 = fx_mul(u3, u2);
    proof {
        lemma_fx_mul_bound(u5 as int, u2 as int, 168_070, 490_000);
    }
    let u7 = fx_mul(u5, u2);
    proof {
        lemma_fx_mul_bound(u7 as int, u2 as int, 82_355, 490_000);
    }
    let u9 = fx_mul(u7, u2);
    proof {
        lemma_div_towards_zero_bound(u3 as int, 3, 343_000);
        lemma_div_towards_zero_bound(u5 as int, 5, 168_070);
        lemma_div_towards_zero_bound(u7 as int, 7, 82_355);
        lemma_div_towards_zero_bound(u9 as int, 9, 40_354);
    }
    u - div_const(u3, 3) + div_const(u5, 5) - div_const(u7, 7) + div_const(u9, 9)
}

/// Arctangent of a non-negative fixed-point ratio, by argument folding:
/// large ratios go through the reciprocal, middling ones through the
/// half-angle identity, small ones straight to the polynomial.
pub open spec fn atan_pos_spec(t: int) -> int
    recommends
        t >= 0,
{
    if t > 2_000_000 {
        HALF_PI as int - atan_core_spec(fx_div_spec(SCALE as int, t))
    } else if t > 500_000 {
        QUARTER_PI as int + atan_core_spec(fx_div_spec(t - SCALE as int, t + SCALE as int))
    } else {
        atan_core_spec(t)
    }
}

fn atan_pos(t: i64) -> (r: i64)
    requires
        0 <= t,
    ensures
        r as int == atan_pos_spec(t as int),
        fx_abs(r as int) <= 2_500_000,
{
    if t > 2_000_000 {
        proof {
            lemma_fx_div_bound(SCALE as int, t as int, SCALE as int, 2_000_001);
        }
        let u = fx_div(SCALE, t);
        HALF_PI - atan_core(u)
    } else if t > 500_000 {
        proof {
            lemma_fx_div_bound(t as int - SCALE as int, t as int + SCALE as int, SCALE as int,
                1_500_001);
        }
        let u = fx_div(t - SCALE, t + SCALE);
        QUARTER_PI + atan_core(u)
    } else {
        atan_core(t)
    }
}

/// Arctangent of a fixed-point ratio of any sign.
pub open spec fn atan_spec(t: int) -> int {
    if t >= 0 {
        atan_pos_spec(t)
    } else {
        -atan_pos_spec(-t)
    }
}

/// Fixed-point arctangent.
pub fn atan_fx(t: i64) -> (r: i64)
    requires
        fx_abs(t as int) <= 4_000_000_000_000_000_000,
    ensures
        r as int == atan_spec(t as int),
        fx_abs(r as int) <= 2_500_000,
{
    if t >= 0 {
        atan_pos(t)
    } else {
        -atan_pos(-t)
    }
}

/// Arcsine of a fixed-point ratio, clamped into `[-1, 1]` and routed
/// through `atan_spec(u / sqrt(1 - u^2))`; a vanishing denominator falls
/// back to the quarter turn.
pub open spec fn asin_spec(u: int) -> int {
    if u >= SCALE as int {
        HALF_PI as int
    } else if u <= -(SCALE as int) {
        -(HALF_PI as int)
    } else {
        let d = fx_sqrt_spec(SCALE as int - fx_mul_spec(u, u));
        if d == 0 {
            if u >= 0 {
                HALF_PI as int
            } else {
                -(HALF_PI as int)
            }
        } else {
            atan_spec(fx_div_spec(u, d))
        }
    }
}

/// Fixed-point arcsine, total on all of `i64` by clamping.
pub fn asin_fx(u: i64) -> (r: i64)
    requires
        fx_abs(u as int) <= 4_000_000_000_000_000_000,
    ensures
        r as int == asin_spec(u as int),
        fx_abs(r as int) <= 2_500_000,
{
    if u >= SCALE {
        HALF_PI
    } else if u <= -SCALE {
        -HALF_PI
    } else {
        proof {
            lemma_fx_mul_bound(u as int, u as int, 999_999, 999_999);
        }
        let u2 = fx_mul(u, u);
        let d = fx_sqrt(SCALE - u2);
        if d == 0 {
            if u >= 0 {
                HALF_PI
            } else {
                -HALF_PI
            }
        } else {
            proof {
                lemma_fx_div_bound(u as int, d as int, 999_999, 1);
            }
            let t = fx_div(u, d);
            atan_fx(t)
        }
    }
}

} // verus!
