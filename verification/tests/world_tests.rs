//! World/tick checks: fire-edge semantics, steering, turret recompute,
//! projectile lifecycle across ticks.

use turret_sim::world::{InputState, World, ROBOT_VEL, TURN_STEP};

fn idle() -> InputState {
    InputState {
        turn_left: false,
        turn_right: false,
        move_forward: false,
        move_backward: false,
        fire: false,
    }
}

fn fire_held() -> InputState {
    InputState { fire: true, ..idle() }
}

const DT: i64 = 10_000;  // 10 ms

#[test]
fn startup_world() {
    let w = World::new();
    assert_eq!(w.target.x, 20_000_000);
    assert_eq!(w.target.y, 10_000_000);
    assert_eq!(w.shooter.bearing, 0);
    assert_eq!(w.shooter.speed, 0);
    assert_eq!(w.balls.len(), 0);
    assert!(!w.fire_prev);
}

#[test]
fn holding_fire_three_ticks_spawns_exactly_one() {
    let mut w = World::new();
    let mut spawned = 0;
    for _ in 0..3 {
        if w.tick(fire_held(), DT) {
            spawned += 1;
        }
    }
    assert_eq!(spawned, 1);
    assert_eq!(w.balls.len(), 1);
}

#[test]
fn releasing_fire_rearms_the_trigger() {
    let mut w = World::new();
    assert!(w.tick(fire_held(), DT));
    assert!(!w.tick(fire_held(), DT));
    assert!(!w.tick(idle(), DT));
    assert!(w.tick(fire_held(), DT));
    assert_eq!(w.balls.len(), 2);
}

#[test]
fn turn_keys_nudge_bearing_by_the_step() {
    let mut w = World::new();
    w.tick(InputState { turn_left: true, ..idle() }, DT);
    assert_eq!(w.shooter.bearing, TURN_STEP);
    w.tick(InputState { turn_right: true, ..idle() }, DT);
    w.tick(InputState { turn_right: true, ..idle() }, DT);
    assert_eq!(w.shooter.bearing, -TURN_STEP);
}

#[test]
fn drive_keys_set_speed_and_move_the_robot() {
    let mut w = World::new();
    w.tick(InputState { move_forward: true, ..idle() }, DT);
    assert_eq!(w.shooter.speed, ROBOT_VEL);
    // Forward along bearing 0 is +x: 2 units/s for 10 ms is 0.02 units.
    assert_eq!(w.robot.pos.x, 20_000);
    assert_eq!(w.robot.pos.y, 0);
    w.tick(InputState { move_backward: true, ..idle() }, DT);
    assert_eq!(w.shooter.speed, -ROBOT_VEL);
    assert_eq!(w.robot.pos.x, 0);
    // Backward wins when both drive keys are held, as the key handler
    // checks it first.
    w.tick(InputState { move_forward: true, move_backward: true, ..idle() }, DT);
    assert_eq!(w.shooter.speed, -ROBOT_VEL);
}

#[test]
fn turret_tracks_the_target_each_tick() {
    let mut w = World::new();
    w.tick(idle(), DT);
    // From the origin the target sits at atan(10/20) = 0.46365 rad.
    assert!((w.shooter.turret_angle - 463_648).abs() < 1_000);
    // Turning the chassis leaves the absolute aim direction unchanged.
    let aim = w.shooter.bearing + w.shooter.turret_angle;
    w.tick(InputState { turn_left: true, ..idle() }, DT);
    assert_eq!(w.shooter.bearing + w.shooter.turret_angle, aim);
}

#[test]
fn projectile_flies_and_eventually_lands() {
    let mut w = World::new();
    w.tick(fire_held(), DT);
    assert_eq!(w.balls.len(), 1);
    let v0 = w.balls[0].vel;
    assert_eq!(v0.z, 10_000_000);
    assert!(v0.x > 0 && v0.y > 0);
    let mut ticks = 0;
    while w.balls.len() == 1 {
        w.tick(idle(), DT);
        ticks += 1;
        assert!(w.balls.is_empty() || w.balls[0].pos.z >= 0);
        assert!(ticks < 1_000, "ball never landed");
    }
    // With drag the ball stays up a little less than the dragless 2.04 s.
    assert!(ticks > 150 && ticks < 210, "landed after {ticks}");
}

#[test]
fn fired_ball_spawns_at_the_shooter_ground_position() {
    let mut w = World::new();
    for _ in 0..10 {
        w.tick(InputState { move_forward: true, ..idle() }, DT);
    }
    let px = w.robot.pos.x;
    w.tick(InputState { fire: true, ..idle() }, DT);
    let ball = w.balls[0];
    // The spawn uses the position read before this tick's move.
    assert_eq!(ball.pos.x, px);
    assert_eq!(ball.pos.z, 0);
    assert_eq!(ball.size, 100_000);
    assert_eq!(ball.acc.z, -9_810_000);
}
