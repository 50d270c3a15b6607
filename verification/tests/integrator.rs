//! Integrator checks: exact linear motion without drag, ground-impact
//! timing, step-size independence against the closed-form trajectory,
//! and the drag coupling.

use turret_sim::body::Body;
use turret_sim::vec3::V3;

fn ball(pos: (i64, i64, i64), vel: (i64, i64, i64), acc_z: i64, size: i64) -> Body {
    Body {
        size,
        pos: V3 { x: pos.0, y: pos.1, z: pos.2 },
        vel: V3 { x: vel.0, y: vel.1, z: vel.2 },
        acc: V3 { x: 0, y: 0, z: acc_z },
    }
}

#[test]
fn dragless_horizontal_motion_is_exact() {
    // 3 units/s along x for one second, in 1000 steps of a millisecond.
    let mut b = ball((1_000_000, 2_000_000, 0), (3_000_000, 0, 4_000_000), -9_800_000, 0);
    for _ in 0..1000 {
        b = b.advance(1_000).0;
    }
    assert_eq!(b.pos.x, 4_000_000);
    assert_eq!(b.pos.y, 2_000_000);
    assert_eq!(b.vel.x, 3_000_000);
    assert_eq!(b.vel.y, 0);
}

#[test]
fn dragless_vertical_matches_closed_form() {
    // z(t) = z0 + vz*t - 4.9*t^2 at t = 1 s gives -0.9 units; the
    // symplectic scheme lands within 4.9*t*dt of it for each step size.
    for (dt, steps, tol) in [(1_000i64, 1000usize, 5_000i64), (10_000, 100, 50_000)] {
        let mut b = ball((0, 0, 0), (0, 0, 4_000_000), -9_800_000, 0);
        for _ in 0..steps {
            b = b.advance(dt).0;
        }
        let closed = -900_000i64;
        assert!((b.pos.z - closed).abs() <= tol, "dt={dt} z={}", b.pos.z);
    }
}

#[test]
fn ground_impact_on_exactly_first_negative_tick() {
    // Free fall from 5 units: the crossing happens at sqrt(2*5/9.8), at
    // about 1.01 s, which is the 101st tick of 10 ms. Until then the
    // height stays nonnegative.
    let mut b = ball((0, 0, 5_000_000), (0, 0, 0), -9_800_000, 0);
    let mut ticks = 0;
    loop {
        let (nb, hit) = b.advance(10_000);
        ticks += 1;
        if hit {
            assert!(nb.pos.z < 0);
            break;
        }
        assert!(nb.pos.z >= 0);
        b = nb;
    }
    assert_eq!(ticks, 101);
}

#[test]
fn hit_report_matches_sign_of_new_height() {
    let b = ball((0, 0, 10_000), (0, 0, -1_000_000), 0, 0);
    // One 5 ms tick: z = 0.01 - 1.0 * 0.005 = 0.005 >= 0, no hit.
    let (b1, hit1) = b.advance(5_000);
    assert!(!hit1);
    assert_eq!(b1.pos.z, 5_000);
    // One 20 ms tick from the start: z = 0.01 - 0.02 < 0, hit.
    let (b2, hit2) = b.advance(20_000);
    assert!(hit2);
    assert_eq!(b2.pos.z, -10_000);
}

#[test]
fn drag_slows_a_moving_body() {
    // Same start, with and without drag: the dragged body ends slower.
    let free = ball((0, 0, 0), (10_000_000, 0, 10_000_000), -9_800_000, 0);
    let dragged = ball((0, 0, 0), (10_000_000, 0, 10_000_000), -9_800_000, 100_000);
    let mut f = free;
    let mut d = dragged;
    for _ in 0..100 {
        f = f.advance(10_000).0;
        d = d.advance(10_000).0;
    }
    assert!(d.vel.x < f.vel.x);
    assert!(d.vel.z < f.vel.z);
    assert_eq!(f.vel.x, 10_000_000);
}

#[test]
fn drag_with_zero_x_velocity_hits_y_channel() {
    // The y-only fallback: no x velocity, so drag applies to y and z.
    let mut b = ball((0, 0, 0), (0, 5_000_000, 0), 0, 1_000_000);
    b = b.advance(100_000).0;
    assert_eq!(b.vel.x, 0);
    assert!(b.vel.y < 5_000_000);
}
