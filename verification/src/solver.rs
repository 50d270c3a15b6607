//! The firing-solution solver: from shooter and target state it computes a
//! turret-relative aim angle, a lead correction for the shooter's own
//! motion during the projectile's flight (law of cosines, then law of
//! sines), and a launch speed pair under a fixed-apex policy: the vertical
//! launch speed is pinned to the constant climb rate `UP` and the
//! horizontal speed follows from the corrected distance.

use vstd::prelude::*;
use crate::vec3::{V3, V3g};
use crate::body::{Body, BodyG};
use crate::fixed::{
    SCALE, fx_abs, fx_mul_spec, fx_div_spec, fx_sqrt_spec, fx_mul, fx_div, fx_sqrt,
    lemma_fx_mul_bound, lemma_fx_div_bound, lemma_fx_mul_sign, lemma_fx_square_nonneg,
    lemma_isqrt_upper, lemma_isqrt_unique,
};
use crate::angle::{
    PI, HALF_PI, sin_spec, cos_spec, atan_spec, asin_spec, sin_fx, cos_fx, atan_fx, asin_fx,
};

verus! {

/// Gravity used by the solver's range formula, in units per second squared.
pub const G: i64 = -9_800_000;

/// The fixed vertical launch speed (apex climb rate), units per second.
pub const UP: i64 = 10_000_000;

/// Largest shooter or target coordinate magnitude the solver accepts.
pub const AIM_POS_LIM: i64 = 100_000_000_000;

/// Largest shooter speed magnitude the solver accepts.
pub const SPEED_LIM: i64 = 1_000_000_000;

/// Largest chassis bearing magnitude the solver accepts.
pub const BEARING_LIM: i64 = 1_000_000_000_000;

/// The controllable shooter: a chassis heading, a turret angle relative
/// to it (derived state, recomputed every tick), and a signed forward
/// speed along the bearing.
#[derive(Clone, Copy, PartialEq, Eq, Structural, Debug)]
pub struct Shooter {
    pub bearing: i64,
    pub turret_angle: i64,
    pub speed: i64,
}

/// The mathematical value of a `Shooter`.
pub ghost struct ShooterG {
    pub bearing: int,
    pub turret_angle: int,
    pub speed: int,
}

impl View for Shooter {
    type V = ShooterG;

    open spec fn view(&self) -> ShooterG {
        ShooterG {
            bearing: self.bearing as int,
            turret_angle: self.turret_angle as int,
            speed: self.speed as int,
        }
    }
}

/// One tick's firing solution: never persisted, recomputed from scratch.
/// Besides the launch parameters it carries the intermediate geometry
/// (raw aim angle and the lead triangle's sides), so a rendering
/// collaborator can draw the construction without the solver depending
/// on any renderer.
#[derive(Clone, Copy, PartialEq, Eq, Structural, Debug)]
pub struct FiringSolution {
    pub turret_angle: i64,
    pub horizontal_speed: i64,
    pub vertical_speed: i64,
    pub raw_angle: i64,
    pub lead_distance: i64,
    pub target_distance: i64,
    pub corrected_distance: i64,
}

/// The mathematical value of a `FiringSolution`.
pub ghost struct FiringSolutionG {
    pub turret_angle: int,
    pub horizontal_speed: int,
    pub vertical_speed: int,
    pub raw_angle: int,
    pub lead_distance: int,
    pub target_distance: int,
    pub corrected_distance: int,
}

impl View for FiringSolution {
    type V = FiringSolutionG;

    open spec fn view(&self) -> FiringSolutionG {
        FiringSolutionG {
            turret_angle: self.turret_angle as int,
            horizontal_speed: self.horizontal_speed as int,
            vertical_speed: self.vertical_speed as int,
            raw_angle: self.raw_angle as int,
            lead_distance: self.lead_distance as int,
            target_distance: self.target_distance as int,
            corrected_distance: self.corrected_distance as int,
        }
    }
}

/// Horizontal (ground-plane) distance between two points.
pub open spec fn distance_spec(p1: V3g, p2: V3g) -> int {
    fx_sqrt_spec(
        fx_mul_spec(p1.x - p2.x, p1.x - p2.x) + fx_mul_spec(p1.y - p2.y, p1.y - p2.y),
    )
}

/// Horizontal distance between two points.
pub fn distance(p1: &V3, p2: &V3) -> (r: i64)
    requires
        fx_abs(p1@.x) <= AIM_POS_LIM as int,
        fx_abs(p1@.y) <= AIM_POS_LIM as int,
        fx_abs(p2@.x) <= AIM_POS_LIM as int,
        fx_abs(p2@.y) <= AIM_POS_LIM as int,
    ensures
        r as int == distance_spec(p1@, p2@),
        0 <= r <= 283_000_000_000,
{
    let dx = p1.x - p2.x;
    let dy = p1.y - p2.y;
    proof {
        lemma_fx_mul_bound(dx as int, dx as int, 200_000_000_000, 200_000_000_000);
        lemma_fx_mul_bound(dy as int, dy as int, 200_000_000_000, 200_000_000_000);
        lemma_fx_square_nonneg(dx as int);
        lemma_fx_square_nonneg(dy as int);
    }
    let sq = fx_mul(dx, dx) + fx_mul(dy, dy);
    let r = fx_sqrt(sq);
    proof {
        lemma_isqrt_upper((sq as int) * (SCALE as int), r as int, 283_000_000_000);
    }
    r
}

/// The third side of a triangle with sides `d1`, `d2` and included angle
/// `a`, by the law of cosines. A rounding-negative radicand (a degenerate
/// triangle) is guarded to zero rather than faulting.
pub open spec fn law_cosines_spec(d1: int, d2: int, a: int) -> int {
    let arg = fx_mul_spec(d1, d1) + fx_mul_spec(d2, d2) - 2 * fx_mul_spec(
        fx_mul_spec(d1, d2),
        cos_spec(a),
    );
    if arg < 0 {
        0
    } else {
        fx_sqrt_spec(arg)
    }
}

/// The law-of-cosines side, guarded against degenerate triangles.
pub fn law_cosines(d1: i64, d2: i64, a: i64) -> (r: i64)
    requires
        fx_abs(d1 as int) <= 3_000_000_000,
        fx_abs(d2 as int) <= 310_000_000_000,
        fx_abs(a as int) <= 4_000_000_000_000_000_000,
    ensures
        r as int == law_cosines_spec(d1 as int, d2 as int, a as int),
        0 <= r <= 320_000_000_000,
{
    proof {
        lemma_fx_mul_bound(d1 as int, d1 as int, 3_000_000_000, 3_000_000_000);
        lemma_fx_mul_bound(d2 as int, d2 as int, 310_000_000_000, 310_000_000_000);
        lemma_fx_mul_bound(d1 as int, d2 as int, 3_000_000_000, 310_000_000_000);
        lemma_fx_square_nonneg(d1 as int);
        lemma_fx_square_nonneg(d2 as int);
    }
    let sq1 = fx_mul(d1, d1);
    let sq2 = fx_mul(d2, d2);
    let m12 = fx_mul(d1, d2);
    let c = cos_fx(a);
    proof {
        lemma_fx_mul_bound(m12 as int, c as int, 930_000_000_000_000, 2_600_000);
    }
    let cross = fx_mul(m12, c);
    let arg = sq1 + sq2 - 2 * cross;
    if arg < 0 {
        0
    } else {
        let r = fx_sqrt(arg);
        proof {
            lemma_isqrt_upper((arg as int) * (SCALE as int), r as int, 320_000_000_000);
        }
        r
    }
}

/// The angle opposite side `d2` in a triangle with side `d1` opposite
/// angle `a1`, by the law of sines. A zero `d1` (no triangle) yields no
/// correction, and the arcsine argument is clamped, so the result is
/// always a finite angle.
pub open spec fn law_sines_spec(d1: int, a1: int, d2: int) -> int {
    if d1 == 0 {
        0
    } else {
        asin_spec(fx_div_spec(fx_mul_spec(d2, sin_spec(a1)), d1))
    }
}

/// The law-of-sines angle, guarded against the degenerate triangle.
pub fn law_sines(d1: i64, a1: i64, d2: i64) -> (r: i64)
    requires
        fx_abs(d1 as int) <= 400_000_000_000,
        fx_abs(a1 as int) <= 4_000_000_000_000_000_000,
        fx_abs(d2 as int) <= 3_000_000_000,
    ensures
        r as int == law_sines_spec(d1 as int, a1 as int, d2 as int),
        fx_abs(r as int) <= 2_500_000,
{
    if d1 == 0 {
        0
    } else {
        let s = sin_fx(a1);
        proof {
            lemma_fx_mul_bound(d2 as int, s as int, 3_000_000_000, 2_400_000);
        }
        let num = fx_mul(d2, s);
        proof {
            lemma_fx_div_bound(num as int, d1 as int, 7_200_000_000, 1);
        }
        let u = fx_div(num, d1);
        asin_fx(u)
    }
}

/// The flight duration fixed by the apex policy: the positive root of the
/// vertical motion `z(t) = 1 + UP*t - 4.9*t^2` started one unit up, which
/// is independent of horizontal range.
pub open spec fn ball_time_spec() -> int {
    fx_div_spec(UP as int + fx_sqrt_spec(fx_mul_spec(UP as int, UP as int) + 19_600_000), 9_800_000)
}

/// The fixed flight duration (about 2.136 seconds).
pub fn ball_flight_time() -> (r: i64)
    ensures
        r as int == ball_time_spec(),
        r == 2_136_344,
{
    let sq = fx_mul(UP, UP) + 19_600_000;
    let root = fx_sqrt(sq);
    proof {
        assert(100_000_000_000_000int / 1_000_000int == 100_000_000int);
        assert(fx_mul_spec(UP as int, UP as int) == 100_000_000int);
        assert(sq == 119_600_000);
        assert(10_936_178 * 10_936_178 <= 119_600_000 * 1_000_000);
        assert(119_600_000 * 1_000_000 < 10_936_179 * 10_936_179);
        lemma_isqrt_unique((119_600_000 * 1_000_000) as int, root as int, 10_936_178);
    }
    let r = fx_div(UP + root, 9_800_000);
    proof {
        assert(r as int == fx_div_spec(20_936_178, 9_800_000));
        assert(20_936_178int * 1_000_000 == 20_936_178_000_000int);
        assert(20_936_178_000_000int / 9_800_000 == 2_136_344int);
    }
    r
}

/// The apex-policy launch speeds for a corrected distance: the horizontal
/// speed is the ballistic range formula `-G * dist / (2 * UP)`, the
/// vertical speed is the climb rate `UP` itself.
pub open spec fn tree_map_spec(dist: int) -> (int, int) {
    (fx_div_spec(fx_mul_spec(-(G as int), dist), 2 * (UP as int)), UP as int)
}

/// The launch speed pair (horizontal, vertical) for a corrected distance.
pub fn tree_map(dist: i64) -> (r: (i64, i64))
    requires
        fx_abs(dist as int) <= 320_000_000_000,
    ensures
        (r.0 as int, r.1 as int) == tree_map_spec(dist as int),
        0 <= dist ==> 0 <= r.0 <= 157_000_000_000,
{
    proof {
        lemma_fx_mul_bound(-(G as int), dist as int, 9_800_000, 320_000_000_000);
        lemma_fx_mul_sign(-(G as int), dist as int);
        lemma_fx_div_bound(fx_mul_spec(-(G as int), dist as int), 20_000_000, 3_136_000_000_000,
            20_000_000);
        assert(0 <= dist ==> -(G as int) * (dist as int) >= 0) by (nonlinear_arith);
    }
    let num = fx_mul(-G, dist);
    let h = fx_div(num, 2 * UP);
    (h, UP)
}

/// The turret-relative angle from shooter to target: arctangent of the
/// coordinate deltas, made turret-relative by subtracting the bearing,
/// with a half-turn added when the target lies in the negative-x
/// half-plane (the quadrant plain arctangent cannot tell apart).
/// Coincident positions yield angle zero rather than a fault.
pub open spec fn raw_target_angle_spec(pos: V3g, target: V3g, bearing: int) -> int {
    let dx = target.x - pos.x;
    let dy = target.y - pos.y;
    let base = if dx == 0 {
        if dy > 0 {
            HALF_PI as int
        } else if dy < 0 {
            -(HALF_PI as int)
        } else {
            0
        }
    } else {
        atan_spec(fx_div_spec(dy, dx))
    };
    let rel = base - bearing;
    if dx < 0 {
        rel + PI as int
    } else {
        rel
    }
}

/// The complete firing solution for one tick: raw aim angle, lead-
/// corrected turret angle, and the apex-policy speed pair computed from
/// the lead-corrected distance.
pub open spec fn solve_spec(s: ShooterG, pos: V3g, target: V3g) -> FiringSolutionG {
    let a = raw_target_angle_spec(pos, target, s.bearing);
    let d1 = fx_mul_spec(s.speed, ball_time_spec());
    let d2 = distance_spec(pos, target);
    let d3 = law_cosines_spec(d1, d2, a);
    FiringSolutionG {
        turret_angle: a + law_sines_spec(d3, a, d1),
        horizontal_speed: tree_map_spec(d3).0,
        vertical_speed: UP as int,
        raw_angle: a,
        lead_distance: d1,
        target_distance: d2,
        corrected_distance: d3,
    }
}

impl Shooter {
    /// The launch speed pair for the shooter's current aim: distance
    /// to the target, lead-corrected by the law of cosines with the
    /// current turret angle, then mapped through the apex policy.
    pub fn get_ball_shot(&self, loc: &Body, target: &V3) -> (r: (i64, i64))
        requires
            fx_abs(loc@.pos.x) <= AIM_POS_LIM as int,
            fx_abs(loc@.pos.y) <= AIM_POS_LIM as int,
            fx_abs(target@.x) <= AIM_POS_LIM as int,
            fx_abs(target@.y) <= AIM_POS_LIM as int,
            fx_abs(self@.speed) <= SPEED_LIM as int,
            fx_abs(self@.turret_angle) <= 4_000_000_000_000_000_000,
        ensures
            (r.0 as int, r.1 as int) == get_ball_shot_spec(self@, loc@, target@),
            0 <= r.0 <= 157_000_000_000,
            r.1 == UP,
    {
        let dist = distance(&loc.pos, target);
        let bt = ball_flight_time();
        proof {
            lemma_fx_mul_bound(self.speed as int, bt as int, SPEED_LIM as int, 2_200_000);
        }
        let d1 = fx_mul(self.speed, bt);
        let d3 = law_cosines(d1, dist, self.turret_angle);
        tree_map(d3)
    }
}

/// What `get_ball_shot` computes, over mathematical integers.
pub open spec fn get_ball_shot_spec(s: ShooterG, loc: BodyG, target: V3g) -> (int, int) {
    let d3 = law_cosines_spec(
        fx_mul_spec(s.speed, ball_time_spec()),
        distance_spec(loc.pos, target),
        s.turret_angle,
    );
    tree_map_spec(d3)
}

/// Compute the firing solution for the current shooter and target state.
/// Total on its numeric range: coincident positions and degenerate lead
/// triangles degrade to a guarded, finite best-effort aim, never a fault.
pub fn solve(s: &Shooter, pos: &V3, target: &V3) -> (r: FiringSolution)
    requires
        fx_abs(pos@.x) <= AIM_POS_LIM as int,
        fx_abs(pos@.y) <= AIM_POS_LIM as int,
        fx_abs(target@.x) <= AIM_POS_LIM as int,
        fx_abs(target@.y) <= AIM_POS_LIM as int,
        fx_abs(s@.speed) <= SPEED_LIM as int,
        fx_abs(s@.bearing) <= BEARING_LIM as int,
    ensures
        r@ == solve_spec(s@, pos@, target@),
        fx_abs(r@.turret_angle) <= fx_abs(s@.bearing) + 10_000_000,
        0 <= r@.horizontal_speed <= 157_000_000_000,
        r@.vertical_speed == UP as int,
{
    let dx = target.x - pos.x;
    let dy = target.y - pos.y;
    let base = if dx == 0 {
        if dy > 0 {
            HALF_PI
        } else if dy < 0 {
            -HALF_PI
        } else {
            0
        }
    } else {
        proof {
            lemma_fx_div_bound(dy as int, dx as int, 200_000_000_000, 1);
        }
        atan_fx(fx_div(dy, dx))
    };
    let rel = base - s.bearing;
    let a = if dx < 0 {
        rel + PI
    } else {
        rel
    };
    let bt = ball_flight_time();
    proof {
        lemma_fx_mul_bound(s.speed as int, bt as int, SPEED_LIM as int, 2_200_000);
    }
    let d1 = fx_mul(s.speed, bt);
    let d2 = distance(pos, target);
    let d3 = law_cosines(d1, d2, a);
    let corr = law_sines(d3, a, d1);
    let speeds = tree_map(d3);
    FiringSolution {
        turret_angle: a + corr,
        horizontal_speed: speeds.0,
        vertical_speed: speeds.1,
        raw_angle: a,
        lead_distance: d1,
        target_distance: d2,
        corrected_distance: d3,
    }
}

/// The world-frame launch velocity: the horizontal speed decomposed along
/// the absolute firing direction `bearing + turret_angle`, the vertical
/// speed straight up, all added to the shooter's own current velocity so
/// the shot inherits its momentum.
pub open spec fn launch_velocity_spec(s: ShooterG, sol: FiringSolutionG, vel: V3g) -> V3g {
    let ang = s.bearing + sol.turret_angle;
    V3g {
        x: vel.x + fx_mul_spec(cos_spec(ang), sol.horizontal_speed),
        y: vel.y + fx_mul_spec(sin_spec(ang), sol.horizontal_speed),
        z: vel.z + sol.vertical_speed,
    }
}

/// Assemble the world-frame launch velocity for a computed solution.
pub fn launch_velocity(s: &Shooter, sol: &FiringSolution, vel: &V3) -> (r: V3)
    requires
        fx_abs(s@.bearing) <= BEARING_LIM as int,
        fx_abs(sol@.turret_angle) <= BEARING_LIM as int + 10_000_000,
        fx_abs(sol@.horizontal_speed) <= 157_000_000_000,
        fx_abs(sol@.vertical_speed) <= UP as int,
        fx_abs(vel@.x) <= 100_000_000_000,
        fx_abs(vel@.y) <= 100_000_000_000,
        fx_abs(vel@.z) <= 100_000_000_000,
    ensures
        r@ == launch_velocity_spec(s@, sol@, vel@),
        fx_abs(r@.x) <= 600_000_000_000,
        fx_abs(r@.y) <= 600_000_000_000,
        fx_abs(r@.z) <= 200_000_000_000,
{
    let ang = s.bearing + sol.turret_angle;
    let c = cos_fx(ang);
    let sn = sin_fx(ang);
    proof {
        lemma_fx_mul_bound(c as int, sol.horizontal_speed as int, 2_600_000, 157_000_000_000);
        lemma_fx_mul_bound(sn as int, sol.horizontal_speed as int, 2_400_000, 157_000_000_000);
    }
    V3 {
        x: vel.x + fx_mul(c, sol.horizontal_speed),
        y: vel.y + fx_mul(sn, sol.horizontal_speed),
        z: vel.z + sol.vertical_speed,
    }
}

} // verus!
