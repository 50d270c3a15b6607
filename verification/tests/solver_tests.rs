//! Solver checks: the concrete arena scenario, zero-distance and
//! degenerate-triangle guards, bearing independence, the apex formulas,
//! and the ballistic round trip through the integrator.

use turret_sim::body::Body;
use turret_sim::solver::{
    ball_flight_time, distance, launch_velocity, law_cosines, law_sines, solve, tree_map,
    FiringSolution, Shooter, UP,
};
use turret_sim::vec3::V3;

fn v3(x: i64, y: i64, z: i64) -> V3 {
    V3 { x, y, z }
}

fn static_shooter(bearing: i64) -> Shooter {
    Shooter { bearing, turret_angle: 0, speed: 0 }
}

#[test]
fn distance_is_horizontal_only() {
    assert_eq!(distance(&v3(0, 0, 0), &v3(3_000_000, 4_000_000, 0)), 5_000_000);
    assert_eq!(distance(&v3(0, 0, 0), &v3(3_000_000, 4_000_000, 7_000_000)), 5_000_000);
    assert_eq!(distance(&v3(1_000_000, 0, 0), &v3(1_000_000, 0, 0)), 0);
}

#[test]
fn flight_time_value() {
    // (10 + sqrt(100 + 19.6)) / 9.8 = 2.136344... seconds.
    assert_eq!(ball_flight_time(), 2_136_344);
}

#[test]
fn law_cosines_degenerate_sides() {
    // A zero-side triangle collapses to the other side.
    assert_eq!(law_cosines(0, 5_000_000, 700_000), 5_000_000);
    // Equal sides at zero angle collapse to (nearly) zero, never a fault.
    let r = law_cosines(2_000_000, 2_000_000, 0);
    assert!(r >= 0 && r < 10_000);
}

#[test]
fn law_sines_degenerate_triangle_yields_no_correction() {
    assert_eq!(law_sines(0, 700_000, 2_000_000), 0);
    // A ratio beyond 1 is clamped to a quarter turn, never a fault.
    let r = law_sines(1_000_000, 1_570_796, 3_000_000);
    assert_eq!(r, 1_570_796);
}

#[test]
fn tree_map_is_the_apex_range_formula() {
    // -G * d / (2 * UP) with d = 20: 9.8 * 20 / 20 = 9.8.
    assert_eq!(tree_map(20_000_000), (9_800_000, UP));
    assert_eq!(tree_map(0), (0, UP));
}

#[test]
fn solve_zero_distance_is_finite_and_harmless() {
    let sol = solve(&static_shooter(300_000), &v3(5_000_000, 5_000_000, 0), &v3(
        5_000_000,
        5_000_000,
        0,
    ));
    assert_eq!(sol.horizontal_speed, 0);
    assert_eq!(sol.vertical_speed, UP);
    assert_eq!(sol.turret_angle, -300_000);
    // A moving shooter at zero distance still gets a finite solution.
    let moving = Shooter { bearing: 0, turret_angle: 0, speed: 2_000_000 };
    let sol2 = solve(&moving, &v3(0, 0, 0), &v3(0, 0, 0));
    assert_eq!(sol2.vertical_speed, UP);
    assert!(sol2.horizontal_speed.abs() < 50_000_000);
}

#[test]
fn solve_arena_scenario() {
    // Arena 40x20: shooter at the origin with bearing 0, target fixed at
    // (20, 10). Raw angle atan(10/20) = 0.46365 rad; no motion, so the
    // lead correction vanishes and the horizontal speed is
    // 9.8 * sqrt(500) / 20 = 10.95673 units/s.
    let sol = solve(&static_shooter(0), &v3(0, 0, 0), &v3(20_000_000, 10_000_000, 0));
    assert!((sol.turret_angle - 463_648).abs() < 1_000, "turret {}", sol.turret_angle);
    assert!((sol.horizontal_speed - 10_956_733).abs() < 1_000, "h {}", sol.horizontal_speed);
    assert_eq!(sol.vertical_speed, UP);
    // The exposed lead-triangle geometry: no shooter motion, so the raw
    // angle is the turret angle, the lead side vanishes, and the
    // corrected distance is the plain distance sqrt(500) = 22.360679,
    // less one millionth lost to squaring and re-rooting.
    assert_eq!(sol.raw_angle, sol.turret_angle);
    assert_eq!(sol.lead_distance, 0);
    assert_eq!(sol.target_distance, 22_360_679);
    assert_eq!(sol.corrected_distance, 22_360_678);
}

#[test]
fn solve_resolves_rear_quadrant() {
    // Target straight behind: atan sees slope 0, the quadrant fix adds pi.
    let sol = solve(&static_shooter(0), &v3(0, 0, 0), &v3(-20_000_000, 0, 0));
    assert!((sol.turret_angle - 3_141_593).abs() < 1_000);
}

#[test]
fn solve_vertical_aim_needs_no_slope() {
    // Target straight up the y axis: the slope is undefined, and the
    // guarded branch aims a quarter turn left; straight down, a quarter
    // turn right.
    let up = solve(&static_shooter(0), &v3(0, 0, 0), &v3(0, 15_000_000, 0));
    assert_eq!(up.turret_angle, 1_570_796);
    let down = solve(&static_shooter(0), &v3(0, 15_000_000, 0), &v3(0, 0, 0));
    assert_eq!(down.turret_angle, -1_570_796);
}

#[test]
fn solve_bearing_independent_when_static() {
    let pos = v3(1_000_000, 2_000_000, 0);
    let tgt = v3(17_000_000, 5_000_000, 0);
    let a = solve(&static_shooter(0), &pos, &tgt);
    let b = solve(&static_shooter(900_000), &pos, &tgt);
    let c = solve(&static_shooter(-2_500_000), &pos, &tgt);
    assert_eq!(a.horizontal_speed, b.horizontal_speed);
    assert_eq!(a.horizontal_speed, c.horizontal_speed);
    assert_eq!(a.vertical_speed, b.vertical_speed);
    assert_eq!(0 + a.turret_angle, 900_000 + b.turret_angle);
    assert_eq!(0 + a.turret_angle, -2_500_000 + c.turret_angle);
}

#[test]
fn get_ball_shot_matches_the_apex_mapping() {
    let shooter = static_shooter(0);
    let body = Body {
        size: 0,
        pos: v3(0, 0, 0),
        vel: v3(0, 0, 0),
        acc: v3(0, 0, 0),
    };
    // Static shooter 5 units out: the lead triangle collapses and the
    // speeds are 9.8 * 5 / 20 = 2.45 horizontal, UP vertical.
    let r = shooter.get_ball_shot(&body, &v3(3_000_000, 4_000_000, 0));
    assert_eq!(r, (2_450_000, UP));
}

fn integrate_to_ground(mut b: Body, dt: i64) -> Body {
    loop {
        let (nb, hit) = b.advance(dt);
        if hit {
            return nb;
        }
        b = nb;
    }
}

#[test]
fn round_trip_lands_at_target_distance() {
    // A static shooter 20 units from the target along x: the apex formula
    // gives 9.8 units/s horizontal and UP vertical; integrating the
    // zero-drag ball under the solver's own gravity lands within a
    // centiunit of the 20-unit mark.
    let shooter = static_shooter(0);
    let pos = v3(0, 0, 0);
    let tgt = v3(20_000_000, 0, 0);
    let sol = solve(&shooter, &pos, &tgt);
    assert_eq!(sol.horizontal_speed, 9_800_000);
    let shot = launch_velocity(&shooter, &sol, &v3(0, 0, 0));
    let ball = Body { size: 0, pos, vel: shot, acc: v3(0, 0, -9_800_000) };
    let landed = integrate_to_ground(ball, 1_000);
    assert!((landed.pos.x - 20_000_000).abs() <= 20_000, "x {}", landed.pos.x);
    assert!(landed.pos.y.abs() <= 5_000);
}

#[test]
fn round_trip_arena_diagonal() {
    // The arena scenario end to end: fire at (20, 10) and land there.
    let shooter = static_shooter(0);
    let pos = v3(0, 0, 0);
    let tgt = v3(20_000_000, 10_000_000, 0);
    let sol = solve(&shooter, &pos, &tgt);
    let shot = launch_velocity(&shooter, &sol, &v3(0, 0, 0));
    let ball = Body { size: 0, pos, vel: shot, acc: v3(0, 0, -9_800_000) };
    let landed = integrate_to_ground(ball, 1_000);
    assert!((landed.pos.x - 20_000_000).abs() <= 25_000, "x {}", landed.pos.x);
    assert!((landed.pos.y - 10_000_000).abs() <= 15_000, "y {}", landed.pos.y);
}

#[test]
fn launch_inherits_shooter_momentum() {
    let shooter = Shooter { bearing: 0, turret_angle: 0, speed: 2_000_000 };
    let sol = FiringSolution {
        turret_angle: 0,
        horizontal_speed: 9_800_000,
        vertical_speed: UP,
        raw_angle: 0,
        lead_distance: 0,
        target_distance: 20_000_000,
        corrected_distance: 20_000_000,
    };
    let shot = launch_velocity(&shooter, &sol, &v3(2_000_000, 0, 0));
    assert_eq!(shot.x, 2_000_000 + 9_800_000);
    assert_eq!(shot.z, UP);
}
