//! Fixed-point scalars: an `i64` holds a real quantity scaled by `SCALE`
//! (one millionth steps), so one arena unit is `1_000_000` raw steps.
//! Multiplication, division and square root round toward zero, and each
//! operation is specified exactly by a spec-level mirror over `int`.

use vstd::prelude::*;
use vstd::arithmetic::div_mod::{lemma_div_is_ordered, lemma_div_is_ordered_by_denominator};

verus! {

/// Raw steps per arena unit (or per radian, or per unit/second).
pub const SCALE: i64 = 1_000_000;

/// Magnitude of a mathematical integer.
pub open spec fn fx_abs(a: int) -> int {
    if a >= 0 {
        a
    } else {
        -a
    }
}

/// Quotient of `p` by `d` rounded toward zero, as machine division does.
/// (Spec-level `/` is Euclidean, so it is applied to magnitudes only.)
pub open spec fn div_towards_zero(p: int, d: int) -> int
    recommends
        d != 0,
{
    if (p >= 0) == (d >= 0) {
        fx_abs(p) / fx_abs(d)
    } else {
        -(fx_abs(p) / fx_abs(d))
    }
}

/// Product of two fixed-point numbers, rescaled and rounded toward zero.
pub open spec fn fx_mul_spec(a: int, b: int) -> int {
    div_towards_zero(a * b, SCALE as int)
}

/// Quotient of two fixed-point numbers, rescaled and rounded toward zero.
pub open spec fn fx_div_spec(a: int, b: int) -> int
    recommends
        b != 0,
{
    div_towards_zero(a * (SCALE as int), b)
}

proof fn lemma_abs_mul(a: int, b: int)
    ensures
        fx_abs(a * b) == fx_abs(a) * fx_abs(b),
        ((a >= 0) == (b >= 0)) ==> a * b >= 0,
        ((a >= 0) != (b >= 0)) ==> a * b <= 0,
{
    assert(fx_abs(a * b) == fx_abs(a) * fx_abs(b) && (((a >= 0) == (b >= 0)) ==> a * b >= 0)
        && (((a >= 0) != (b >= 0)) ==> a * b <= 0)) by (nonlinear_arith);
}

proof fn lemma_div_ordered(x: int, y: int, d: int)
    requires
        0 <= x <= y,
        0 < d,
    ensures
        x / d <= y / d,
{
    assert(x / d <= y / d) by (nonlinear_arith)
        requires
            0 <= x <= y,
            0 < d,
    ;
}

/// The magnitude of a rounded product is at most the product of the operand
/// bounds, rescaled.
pub proof fn lemma_fx_mul_bound(a: int, b: int, ba: int, bb: int)
    requires
        fx_abs(a) <= ba,
        fx_abs(b) <= bb,
    ensures
        fx_abs(fx_mul_spec(a, b)) <= ba * bb / (SCALE as int),
{
    lemma_abs_mul(a, b);
    assert(fx_abs(a) * fx_abs(b) <= ba * bb) by (nonlinear_arith)
        requires
            0 <= fx_abs(a) <= ba,
            0 <= fx_abs(b) <= bb,
    ;
    lemma_div_ordered(fx_abs(a * b), ba * bb, SCALE as int);
}

/// The magnitude of a rounded quotient, from a bound on its numerator.
pub proof fn lemma_div_towards_zero_bound(p: int, d: int, bp: int)
    requires
        fx_abs(p) <= bp,
        0 < d,
    ensures
        fx_abs(div_towards_zero(p, d)) <= bp / d,
{
    lemma_div_ordered(fx_abs(p), bp, d);
}

/// Multiplication keeps the sign of the exact product.
pub proof fn lemma_fx_mul_sign(a: int, b: int)
    ensures
        a * b >= 0 ==> fx_mul_spec(a, b) >= 0,
        a * b <= 0 ==> fx_mul_spec(a, b) <= 0,
        a == 0 || b == 0 ==> fx_mul_spec(a, b) == 0,
{
    lemma_abs_mul(a, b);
}

/// A fixed-point square is never negative.
pub proof fn lemma_fx_square_nonneg(a: int)
    ensures
        fx_mul_spec(a, a) >= 0,
{
    assert(a * a >= 0) by (nonlinear_arith);
    lemma_fx_mul_sign(a, a);
}

/// Fixed-point product of `a` and `b`, rounded toward zero.
pub fn fx_mul(a: i64, b: i64) -> (r: i64)
    requires
        -0x7fff_ffff_ffff_ffff <= fx_mul_spec(a as int, b as int) <= 0x7fff_ffff_ffff_ffff,
    ensures
        r as int == fx_mul_spec(a as int, b as int),
{
    let neg = (a < 0) != (b < 0);
    let ma: u128 = if a >= 0 {
        a as u128
    } else {
        (-(a as i128)) as u128
    };
    let mb: u128 = if b >= 0 {
        b as u128
    } else {
        (-(b as i128)) as u128
    };
    proof {
        lemma_abs_mul(a as int, b as int);
        assert(ma * mb == fx_abs(a as int) * fx_abs(b as int)) by (nonlinear_arith)
            requires
                ma == fx_abs(a as int),
                mb == fx_abs(b as int),
        ;
        assert(ma * mb <= 0x8000_0000_0000_0000u128 * 0x8000_0000_0000_0000u128)
            by (nonlinear_arith)
            requires
                ma <= 0x8000_0000_0000_0000u128,
                mb <= 0x8000_0000_0000_0000u128,
        ;
    }
    let q: u128 = (ma * mb) / 1_000_000;
    if neg {
        -(q as i64)
    } else {
        q as i64
    }
}

/// Fixed-point quotient of `a` by `b`, rounded toward zero.
pub fn fx_div(a: i64, b: i64) -> (r: i64)
    requires
        b != 0,
        -0x7fff_ffff_ffff_ffff <= fx_div_spec(a as int, b as int) <= 0x7fff_ffff_ffff_ffff,
    ensures
        r as int == fx_div_spec(a as int, b as int),
{
    let neg = (a < 0) != (b < 0);
    let ma: u128 = if a >= 0 {
        a as u128
    } else {
        (-(a as i128)) as u128
    };
    let mb: u128 = if b >= 0 {
        b as u128
    } else {
        (-(b as i128)) as u128
    };
    proof {
        lemma_abs_mul(a as int, SCALE as int);
        assert(ma * 1_000_000 == fx_abs(a as int) * (SCALE as int)) by (nonlinear_arith)
            requires
                ma == fx_abs(a as int),
        ;
    }
    let q: u128 = (ma * 1_000_000) / mb;
    if neg {
        -(q as i64)
    } else {
        q as i64
    }
}

/// Integer quotient of `a` by a positive constant, rounded toward zero.
pub fn div_const(a: i64, d: i64) -> (r: i64)
    requires
        d > 0,
        a > -0x8000_0000_0000_0000,
    ensures
        r as int == div_towards_zero(a as int, d as int),
{
    let neg = a < 0;
    let ma: u64 = if a >= 0 {
        a as u64
    } else {
        (-(a as i128)) as u64
    };
    let q: u64 = ma / (d as u64);
    if neg {
        -(q as i64)
    } else {
        q as i64
    }
}

/// A quotient of bounded numerator over a denominator at least `bd` is
/// bounded by the quotient of the bounds.
pub proof fn lemma_div_bound(p: int, d: int, bp: int, bd: int)
    requires
        0 <= p <= bp,
        0 < bd <= d,
    ensures
        0 <= p / d <= bp / bd,
{
    lemma_div_is_ordered(p, bp, d);
    lemma_div_is_ordered_by_denominator(bp, bd, d);
    assert(p / d >= 0) by (nonlinear_arith)
        requires
            0 <= p,
            0 < d,
    ;
}

/// The magnitude of a fixed-point quotient, from bounds on its operands.
pub proof fn lemma_fx_div_bound(a: int, b: int, ba: int, bb: int)
    requires
        fx_abs(a) <= ba,
        0 < bb <= fx_abs(b),
    ensures
        fx_abs(fx_div_spec(a, b)) <= ba * (SCALE as int) / bb,
{
    assert(fx_abs(a * (SCALE as int)) == fx_abs(a) * (SCALE as int)) by (nonlinear_arith);
    assert(fx_abs(a) * (SCALE as int) <= ba * (SCALE as int)) by (nonlinear_arith)
        requires
            0 <= fx_abs(a) <= ba,
    ;
    lemma_div_bound(fx_abs(a * (SCALE as int)), fx_abs(b), ba * (SCALE as int), bb);
}

/// `r` is the integer square root of `n`.
pub open spec fn is_isqrt(n: int, r: int) -> bool {
    0 <= r && r * r <= n && n < (r + 1) * (r + 1)
}

/// The integer square root of a non-negative `n` (unspecified for `n < 0`).
pub open spec fn isqrt_spec(n: int) -> int {
    choose|r: int| is_isqrt(n, r)
}

/// Square root of a fixed-point number: scale once more, then take the
/// integer root, so the result is again in fixed-point steps.
pub open spec fn fx_sqrt_spec(x: int) -> int {
    isqrt_spec(x * (SCALE as int))
}

/// An integer has at most one integer square root.
pub proof fn lemma_isqrt_unique(n: int, r1: int, r2: int)
    requires
        is_isqrt(n, r1),
        is_isqrt(n, r2),
    ensures
        r1 == r2,
{
    if r1 < r2 {
        assert((r1 + 1) * (r1 + 1) <= r2 * r2) by (nonlinear_arith)
            requires
                0 <= r1 < r2,
        ;
    }
    if r2 < r1 {
        assert((r2 + 1) * (r2 + 1) <= r1 * r1) by (nonlinear_arith)
            requires
                0 <= r2 < r1,
        ;
    }
}

/// Fixed-point square root of a non-negative fixed-point number.
pub fn fx_sqrt(x: i64) -> (r: i64)
    requires
        0 <= x,
    ensures
        r as int == fx_sqrt_spec(x as int),
        is_isqrt((x as int) * (SCALE as int), r as int),
        0 <= r,
{
    let n: u128 = (x as u128) * 1_000_000;
    let mut lo: u128 = 0;
    let mut hi: u128 = 3_100_000_000_000;
    proof {
        assert(hi * hi > n) by (nonlinear_arith)
            requires
                hi == 3_100_000_000_000u128,
                n <= 0x7fff_ffff_ffff_ffffu128 * 1_000_000,
        ;
    }
    while lo + 1 < hi
        invariant
            0 <= lo < hi <= 3_100_000_000_000,
            (lo as int) * (lo as int) <= n as int,
            (n as int) < (hi as int) * (hi as int),
            n == (x as int) * (SCALE as int),
        decreases hi - lo,
    {
        let mid: u128 = lo + (hi - lo) / 2;
        proof {
            assert(mid * mid < 0xffff_ffff_ffff_ffff_ffff_ffff_ffff_ffffu128) by (nonlinear_arith)
                requires
                    mid <= 3_100_000_000_000u128,
            ;
        }
        if mid * mid <= n {
            lo = mid;
        } else {
            hi = mid;
        }
    }
    proof {
        assert(is_isqrt(n as int, lo as int));
        lemma_isqrt_unique(n as int, lo as int, isqrt_spec(n as int));
    }
    lo as i64
}

/// A square root is below any `b` whose square exceeds the argument.
pub proof fn lemma_isqrt_upper(n: int, r: int, b: int)
    requires
        is_isqrt(n, r),
        0 <= b,
        n < b * b,
    ensures
        r < b,
{
    if r >= b {
        assert(b * b <= r * r) by (nonlinear_arith)
            requires
                0 <= b <= r,
        ;
    }
}

} // verus!
