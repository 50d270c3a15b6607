//! Library-wide laws: properties that relate several operations, stated
//! over the same spec functions the operations' own contracts use.

use vstd::prelude::*;
use crate::vec3::V3g;
use crate::body::{BodyG, advance_spec, advance_vel_spec, hits_ground_spec, AIR_RES};
use crate::solver::{
    ShooterG, solve_spec, law_cosines_spec, law_sines_spec, distance_spec, tree_map_spec,
    raw_target_angle_spec, ball_time_spec, UP,
};
use crate::world::{WorldG, InputState, tick_spec, fires_spec, step_balls_spec};
use crate::angle::{sin_spec, cos_spec};
use crate::fixed::{
    SCALE, fx_abs, div_towards_zero, fx_mul_spec, fx_div_spec, fx_sqrt_spec, is_isqrt,
    isqrt_spec, lemma_isqrt_unique,
};
use vstd::arithmetic::div_mod::{lemma_fundamental_div_mod, lemma_mod_bound};

verus! {

/// Ground impact is reported on exactly the tick the body's height would
/// go negative: a body not reported terminal still has nonnegative height
/// whenever it started a tick at nonnegative height, so no live body's
/// altitude is ever negative.
pub proof fn lemma_ground_exact(b: BodyG, dt: int)
    ensures
        hits_ground_spec(b, dt) <==> advance_spec(b, dt).pos.z < 0,
        !hits_ground_spec(b, dt) ==> advance_spec(b, dt).pos.z >= 0,
{
}

/// The square root of zero is zero.
proof fn lemma_isqrt_zero()
    ensures
        fx_sqrt_spec(0) == 0,
{
    assert(is_isqrt(0, 0));
    assert(is_isqrt(0, isqrt_spec(0)));
    lemma_isqrt_unique(0, isqrt_spec(0), 0);
}

/// A shooter aiming at its own position (zero distance) still gets a
/// finite, well-defined solution: when it is also static, a zero
/// horizontal speed, the fixed vertical climb rate, and an aim angle that
/// simply cancels its bearing. No degenerate geometry faults.
pub proof fn lemma_solve_zero_distance(s: ShooterG, pos: V3g)
    requires
        s.speed == 0,
    ensures
        solve_spec(s, pos, pos).horizontal_speed == 0,
        solve_spec(s, pos, pos).vertical_speed == UP as int,
        solve_spec(s, pos, pos).turret_angle == -s.bearing,
{
    lemma_isqrt_zero();
    assert(fx_mul_spec(0, 0) == 0);
    assert(fx_mul_spec(0, ball_time_spec()) == 0);
    let a = raw_target_angle_spec(pos, pos, s.bearing);
    assert(a == -s.bearing);
    assert(distance_spec(pos, pos) == 0);
    assert(fx_mul_spec(0, cos_spec(a)) == 0) by {
        assert(0 * cos_spec(a) == 0);
    }
    assert(law_cosines_spec(0, 0, a) == 0);
    assert(law_sines_spec(0, a, 0) == 0);
    assert(fx_mul_spec(9_800_000, 0) == 0);
    assert(tree_map_spec(0).0 == fx_div_spec(0, 20_000_000));
    assert(fx_div_spec(0, 20_000_000) == 0);
}

/// Bearing independence: for a static shooter the solution's speeds and
/// its absolute firing direction `bearing + turret_angle` do not depend
/// on the bearing; the bearing-relative decomposition cancels exactly.
pub proof fn lemma_bearing_independence(s1: ShooterG, s2: ShooterG, pos: V3g, target: V3g)
    requires
        s1.speed == 0,
        s2.speed == 0,
    ensures
        solve_spec(s1, pos, target).horizontal_speed == solve_spec(
            s2,
            pos,
            target,
        ).horizontal_speed,
        solve_spec(s1, pos, target).vertical_speed == solve_spec(s2, pos, target).vertical_speed,
        s1.bearing + solve_spec(s1, pos, target).turret_angle == s2.bearing + solve_spec(
            s2,
            pos,
            target,
        ).turret_angle,
{
    let a1 = raw_target_angle_spec(pos, target, s1.bearing);
    let a2 = raw_target_angle_spec(pos, target, s2.bearing);
    assert(a1 + s1.bearing == a2 + s2.bearing);
    let bt = ball_time_spec();
    assert(fx_mul_spec(0, bt) == 0);
    let d2 = distance_spec(pos, target);
    assert(fx_mul_spec(0, 0) == 0);
    assert(fx_mul_spec(0, d2) == 0);
    assert(fx_mul_spec(0, cos_spec(a1)) == 0) by {
        assert(0 * cos_spec(a1) == 0);
    }
    assert(fx_mul_spec(0, cos_spec(a2)) == 0) by {
        assert(0 * cos_spec(a2) == 0);
    }
    assert(law_cosines_spec(0, d2, a1) == law_cosines_spec(0, d2, a2));
    let d3 = law_cosines_spec(0, d2, a1);
    if d3 != 0 {
        assert(fx_mul_spec(0, sin_spec(a1)) == 0) by {
            assert(0 * sin_spec(a1) == 0);
        }
        assert(fx_mul_spec(0, sin_spec(a2)) == 0) by {
            assert(0 * sin_spec(a2) == 0);
        }
        assert(fx_div_spec(0, d3) == 0);
        assert(law_sines_spec(d3, a1, 0) == law_sines_spec(d3, a2, 0));
    }
}

/// The body after `n` ticks of the same length.
pub open spec fn advance_n_spec(b: BodyG, dt: int, n: nat) -> BodyG
    decreases n,
{
    if n == 0 {
        b
    } else {
        advance_spec(advance_n_spec(b, dt, (n - 1) as nat), dt)
    }
}

proof fn lemma_advance_zero_drag(b: BodyG, dt: int)
    requires
        b.size == 0,
        b.acc.x == 0,
        b.acc.y == 0,
    ensures
        advance_vel_spec(b, dt) == (V3g {
            x: b.vel.x,
            y: b.vel.y,
            z: b.vel.z + fx_mul_spec(b.acc.z, dt),
        }),
        advance_spec(b, dt).vel == advance_vel_spec(b, dt),
        advance_spec(b, dt).pos.x == b.pos.x + fx_mul_spec(b.vel.x, dt),
        advance_spec(b, dt).pos.y == b.pos.y + fx_mul_spec(b.vel.y, dt),
        advance_spec(b, dt).size == 0,
        advance_spec(b, dt).acc == b.acc,
{
    assert(fx_mul_spec(0, dt) == 0);
    assert(fx_mul_spec(AIR_RES as int, 0) == 0);
    let vx1 = b.vel.x + fx_mul_spec(b.acc.x, dt);
    let vy1 = b.vel.y + fx_mul_spec(b.acc.y, dt);
    let vz1 = b.vel.z + fx_mul_spec(b.acc.z, dt);
    let speed = fx_mul_spec(
        fx_sqrt_spec(fx_mul_spec(vx1, vx1) + fx_mul_spec(vy1, vy1) + fx_mul_spec(vz1, vz1)),
        dt,
    );
    assert(fx_mul_spec(fx_mul_spec(AIR_RES as int, b.size), speed) == 0);
}

/// The proved core of step-size independence away from drag: a dragless
/// body under purely vertical acceleration keeps its horizontal velocity
/// exactly, its vertical velocity grows by the same increment each tick,
/// and its horizontal displacement after `n` equal ticks is exactly `n`
/// times the one-tick displacement - integration error enters only
/// through the vertical channel.
pub proof fn lemma_zero_drag_closed_form(b: BodyG, dt: int, n: nat)
    requires
        b.size == 0,
        b.acc.x == 0,
        b.acc.y == 0,
    ensures
        advance_n_spec(b, dt, n).vel.x == b.vel.x,
        advance_n_spec(b, dt, n).vel.y == b.vel.y,
        advance_n_spec(b, dt, n).vel.z == b.vel.z + n * fx_mul_spec(b.acc.z, dt),
        advance_n_spec(b, dt, n).pos.x == b.pos.x + n * fx_mul_spec(b.vel.x, dt),
        advance_n_spec(b, dt, n).pos.y == b.pos.y + n * fx_mul_spec(b.vel.y, dt),
        advance_n_spec(b, dt, n).size == 0,
        advance_n_spec(b, dt, n).acc == b.acc,
    decreases n,
{
    if n > 0 {
        lemma_zero_drag_closed_form(b, dt, (n - 1) as nat);
        lemma_advance_zero_drag(advance_n_spec(b, dt, (n - 1) as nat), dt);
        let az = fx_mul_spec(b.acc.z, dt);
        let mx = fx_mul_spec(b.vel.x, dt);
        let my = fx_mul_spec(b.vel.y, dt);
        assert((n - 1) * az + az == n * az) by (nonlinear_arith);
        assert((n - 1) * mx + mx == n * mx) by (nonlinear_arith);
        assert((n - 1) * my + my == n * my) by (nonlinear_arith);
    }
}

/// A rounded quotient times its divisor stays within one divisor of the
/// dividend.
proof fn lemma_tdiv_remainder(p: int, d: int)
    requires
        0 < d,
    ensures
        fx_abs(div_towards_zero(p, d) * d - p) < d,
{
    let m = fx_abs(p);
    lemma_fundamental_div_mod(m, d);
    lemma_mod_bound(m, d);
    let q = m / d;
    assert(q * d - m == -(m % d)) by (nonlinear_arith)
        requires
            m == d * q + (m % d),
    ;
    assert((-q) * d == -(q * d)) by (nonlinear_arith);
}

/// Step-size independence away from drag, rounding half: together with
/// the closed form above, the horizontal displacement accumulated over
/// `n` rounded ticks of length `dt` differs from the exact unrounded
/// displacement over the same total time `n * dt` by at most `n` raw
/// steps (`n` millionths of a unit), however the interval is cut up.
pub proof fn lemma_displacement_rounding(v: int, dt: int, n: nat)
    ensures
        fx_abs(
            n * fx_mul_spec(v, dt) * (SCALE as int) - n * (v * dt),
        ) <= n * ((SCALE as int) - 1),
{
    lemma_tdiv_remainder(v * dt, SCALE as int);
    let e = fx_mul_spec(v, dt) * (SCALE as int) - v * dt;
    assert(fx_abs(e) <= (SCALE as int) - 1);
    assert(n * fx_mul_spec(v, dt) * (SCALE as int) - n * (v * dt) == n * e) by (nonlinear_arith)
        requires
            e == fx_mul_spec(v, dt) * (SCALE as int) - v * dt,
    ;
    assert(fx_abs(n * e) <= n * ((SCALE as int) - 1)) by (nonlinear_arith)
        requires
            fx_abs(e) <= (SCALE as int) - 1,
            n >= 0,
    ;
}

/// Fire-edge semantics: holding the fire key across consecutive ticks
/// spawns exactly one projectile, on the tick of the rising edge; the
/// following held ticks spawn none.
pub proof fn lemma_fire_edge_once(w: WorldG, input: InputState, dt: int)
    requires
        input.fire,
        !w.fire_prev,
    ensures
        fires_spec(w, input),
        tick_spec(w, input, dt).balls.len() == step_balls_spec(w.balls, dt).len() + 1,
        !fires_spec(tick_spec(w, input, dt), input),
        tick_spec(tick_spec(w, input, dt), input, dt).balls.len() == step_balls_spec(
            tick_spec(w, input, dt).balls,
            dt,
        ).len(),
{
}

} // verus!
