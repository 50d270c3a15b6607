//! The simulation world and its per-tick step: steer the shooter from the
//! tick's input snapshot, recompute the firing solution, move every live
//! body by the same `dt`, and spawn exactly one projectile on a rising
//! fire edge (a press held across ticks fires once).

use vstd::prelude::*;
use crate::vec3::{V3, V3g};
use crate::body::{
    Body, BodyG, body_in_range, advance_spec, hits_ground_spec, v3_in_range, DT_LIM,
    lemma_advance_dragless,
};
use crate::solver::{
    Shooter, ShooterG, solve, solve_spec, launch_velocity, launch_velocity_spec, AIM_POS_LIM,
};
use crate::angle::{PI, norm_angle_spec, norm_angle, sin_spec, cos_spec, sin_fx, cos_fx};
use crate::fixed::{fx_abs, fx_mul_spec, fx_mul, lemma_fx_mul_bound};

verus! {

/// The shooter's signed drive speed, units per second.
pub const ROBOT_VEL: i64 = 2_000_000;

/// The bearing change applied per tick while a turn key is held.
pub const TURN_STEP: i64 = 100_000;

/// Size (drag coefficient) of a spawned projectile.
pub const BALL_SIZE: i64 = 100_000;

/// Gravity preset on a spawned projectile, units per second squared.
pub const BALL_GRAVITY: i64 = -9_810_000;

/// Logical arena width in fixed-point units.
pub const ARENA_WIDTH: i64 = 40_000_000;

/// Logical arena height in fixed-point units.
pub const ARENA_HEIGHT: i64 = 20_000_000;

/// The shooter may roam this far from the origin before the world stops
/// moving it (the numeric boundary of the simulation, far outside any
/// arena).
pub const ROAM_LIM: i64 = 90_000_000_000;

/// One tick's input snapshot: discrete intents, with `fire` reporting the
/// key as currently held (the world itself turns it into an edge).
#[derive(Clone, Copy, PartialEq, Eq, Structural, Debug)]
pub struct InputState {
    pub turn_left: bool,
    pub turn_right: bool,
    pub move_forward: bool,
    pub move_backward: bool,
    pub fire: bool,
}

/// The simulation world: the controlled shooter and its body, the static
/// target, the live projectiles, and the previous tick's fire key state
/// for edge detection.
pub struct World {
    pub shooter: Shooter,
    pub robot: Body,
    pub target: V3,
    pub balls: Vec<Body>,
    pub fire_prev: bool,
}

/// The mathematical value of a `World`.
pub ghost struct WorldG {
    pub shooter: ShooterG,
    pub robot: BodyG,
    pub target: V3g,
    pub balls: Seq<BodyG>,
    pub fire_prev: bool,
}

impl View for World {
    type V = WorldG;

    open spec fn view(&self) -> WorldG {
        WorldG {
            shooter: self.shooter@,
            robot: self.robot@,
            target: self.target@,
            balls: self.balls@.map_values(|b: Body| b@),
            fire_prev: self.fire_prev,
        }
    }
}

/// The world invariant: bearing normalized, speed one of the drive
/// levels, the shooter's body a dragless, unaccelerated mass near the
/// origin, and the target within the solver's range.
pub open spec fn wf(w: WorldG) -> bool {
    &&& fx_abs(w.shooter.bearing) <= PI as int
    &&& fx_abs(w.shooter.speed) <= ROBOT_VEL as int
    &&& fx_abs(w.shooter.turret_angle) <= 20_000_000
    &&& fx_abs(w.robot.pos.x) <= ROAM_LIM as int + 10_000_000
    &&& fx_abs(w.robot.pos.y) <= ROAM_LIM as int + 10_000_000
    &&& fx_abs(w.robot.pos.z) <= ROAM_LIM as int + 10_000_000
    &&& w.robot.acc == (V3g { x: 0, y: 0, z: 0 })
    &&& w.robot.size == 0
    &&& fx_abs(w.target.x) <= AIM_POS_LIM as int
    &&& fx_abs(w.target.y) <= AIM_POS_LIM as int
}

/// The shooter state after applying this tick's steering intents: turn
/// keys nudge the bearing by `TURN_STEP` (kept normalized, the same
/// heading modulo full turns), drive keys pick the speed with backward
/// taking precedence.
pub open spec fn steer_spec(s: ShooterG, input: InputState) -> ShooterG {
    let bearing = if input.turn_left {
        norm_angle_spec(s.bearing + TURN_STEP as int)
    } else if input.turn_right {
        norm_angle_spec(s.bearing - TURN_STEP as int)
    } else {
        s.bearing
    };
    let speed = if input.move_backward {
        -(ROBOT_VEL as int)
    } else if input.move_forward {
        ROBOT_VEL as int
    } else {
        0
    };
    ShooterG { bearing, turret_angle: s.turret_angle, speed }
}

/// The shooter body's velocity: its speed decomposed along its bearing.
pub open spec fn robot_vel_spec(s: ShooterG) -> V3g {
    V3g {
        x: fx_mul_spec(s.speed, cos_spec(s.bearing)),
        y: fx_mul_spec(s.speed, sin_spec(s.bearing)),
        z: 0,
    }
}

/// One ball's contribution to the next tick: dropped when it leaves the
/// integrator's numeric range or hits the ground, else its advanced self.
pub open spec fn ball_contrib_spec(b: BodyG, dt: int) -> Seq<BodyG> {
    if !body_in_range(b) {
        Seq::empty()
    } else if hits_ground_spec(b, dt) {
        Seq::empty()
    } else {
        seq![advance_spec(b, dt)]
    }
}

/// All live balls advanced by the same `dt`, in order, terminal ones
/// removed.
pub open spec fn step_balls_spec(s: Seq<BodyG>, dt: int) -> Seq<BodyG>
    decreases s.len(),
{
    if s.len() == 0 {
        Seq::empty()
    } else {
        ball_contrib_spec(s.first(), dt) + step_balls_spec(s.drop_first(), dt)
    }
}

proof fn lemma_step_balls_snoc(s: Seq<BodyG>, b: BodyG, dt: int)
    ensures
        step_balls_spec(s.push(b), dt) == step_balls_spec(s, dt) + ball_contrib_spec(b, dt),
    decreases s.len(),
{
    if s.len() == 0 {
        assert(s.push(b).drop_first() =~= Seq::<BodyG>::empty());
        assert(s.push(b).first() == b);
        assert(step_balls_spec(s, dt) =~= Seq::<BodyG>::empty());
        assert(step_balls_spec(s.push(b).drop_first(), dt) =~= Seq::<BodyG>::empty());
        assert(step_balls_spec(s.push(b), dt) =~= ball_contrib_spec(b, dt)
            + Seq::<BodyG>::empty());
        assert(step_balls_spec(s.push(b), dt) =~= step_balls_spec(s, dt) + ball_contrib_spec(
            b,
            dt,
        ));
    } else {
        lemma_step_balls_snoc(s.drop_first(), b, dt);
        assert(s.push(b).drop_first() =~= s.drop_first().push(b));
        assert(s.push(b).first() == s.first());
        assert(step_balls_spec(s.push(b), dt) =~= step_balls_spec(s, dt) + ball_contrib_spec(
            b,
            dt,
        ));
    }
}

/// Whether this tick's input fires: the key is down now and was up on the
/// previous tick.
pub open spec fn fires_spec(w: WorldG, input: InputState) -> bool {
    input.fire && !w.fire_prev
}

/// The projectile spawned by a fire edge: it starts at the shooter's
/// ground position with the computed launch velocity, gravity preset and
/// the projectile drag size.
pub open spec fn spawned_ball_spec(pos: V3g, shot: V3g) -> BodyG {
    BodyG {
        size: BALL_SIZE as int,
        pos: V3g { x: pos.x, y: pos.y, z: 0 },
        vel: shot,
        acc: V3g { x: 0, y: 0, z: BALL_GRAVITY as int },
    }
}

/// Whether the shooter's body is inside its roaming range, so the world
/// still moves it.
pub open spec fn robot_can_move_spec(b: BodyG) -> bool {
    v3_in_range(b.pos, ROAM_LIM as int)
}

/// The whole world, one tick later.
pub open spec fn tick_spec(w: WorldG, input: InputState, dt: int) -> WorldG {
    let s1 = steer_spec(w.shooter, input);
    let rvel = robot_vel_spec(s1);
    let r1 = BodyG { size: w.robot.size, pos: w.robot.pos, vel: rvel, acc: w.robot.acc };
    let sol = solve_spec(s1, r1.pos, w.target);
    let s2 = ShooterG { bearing: s1.bearing, turret_angle: sol.turret_angle, speed: s1.speed };
    let shot = launch_velocity_spec(s2, sol, rvel);
    let r2 = if robot_can_move_spec(r1) {
        advance_spec(r1, dt)
    } else {
        r1
    };
    let stepped = step_balls_spec(w.balls, dt);
    let balls2 = if fires_spec(w, input) {
        stepped.push(spawned_ball_spec(r1.pos, shot))
    } else {
        stepped
    };
    WorldG { shooter: s2, robot: r2, target: w.target, balls: balls2, fire_prev: input.fire }
}

impl World {
    /// The startup world: shooter at the origin facing along positive x,
    /// target fixed at the arena's center, nothing in flight.
    pub fn new() -> (w: World)
        ensures
            w@.shooter == (ShooterG { bearing: 0, turret_angle: 0, speed: 0 }),
            w@.robot.pos == (V3g { x: 0, y: 0, z: 0 }),
            w@.robot.vel == (V3g { x: 0, y: 0, z: 0 }),
            w@.robot.acc == (V3g { x: 0, y: 0, z: 0 }),
            w@.robot.size == 0,
            w@.target == (V3g { x: 20_000_000, y: 10_000_000, z: 0 }),
            w@.balls.len() == 0,
            w@.fire_prev == false,
            wf(w@),
    {
        let w = World {
            shooter: Shooter { bearing: 0, turret_angle: 0, speed: 0 },
            robot: Body {
                size: 0,
                pos: V3 { x: 0, y: 0, z: 0 },
                vel: V3 { x: 0, y: 0, z: 0 },
                acc: V3 { x: 0, y: 0, z: 0 },
            },
            target: V3 { x: ARENA_WIDTH / 2, y: ARENA_HEIGHT / 2, z: 0 },
            balls: Vec::new(),
            fire_prev: false,
        };
        proof {
            assert(w@.balls =~= Seq::<BodyG>::empty());
        }
        w
    }

    /// Advance the whole world by one tick of length `dt`, returning
    /// whether a projectile was spawned (true exactly on a rising fire
    /// edge). The solver reads the shooter's state before anything moves
    /// or spawns, every live body moves by the same `dt`, and bodies that
    /// hit the ground this tick are removed.
    #[verifier::rlimit(100)]
    pub fn tick(&mut self, input: InputState, dt: i64) -> (fired: bool)
        requires
            wf(old(self)@),
            0 < dt <= DT_LIM,
        ensures
            final(self)@ == tick_spec(old(self)@, input, dt as int),
            fired == fires_spec(old(self)@, input),
            wf(final(self)@),
    {
        // Steering: turn keys nudge the bearing, drive keys set the speed.
        let bearing: i64 = if input.turn_left {
            norm_angle(self.shooter.bearing + TURN_STEP)
        } else if input.turn_right {
            norm_angle(self.shooter.bearing - TURN_STEP)
        } else {
            self.shooter.bearing
        };
        let speed: i64 = if input.move_backward {
            -ROBOT_VEL
        } else if input.move_forward {
            ROBOT_VEL
        } else {
            0
        };
        let c = cos_fx(bearing);
        let sn = sin_fx(bearing);
        proof {
            lemma_fx_mul_bound(speed as int, c as int, ROBOT_VEL as int, 2_600_000);
            lemma_fx_mul_bound(speed as int, sn as int, ROBOT_VEL as int, 2_600_000);
        }
        let rvel = V3 { x: fx_mul(speed, c), y: fx_mul(speed, sn), z: 0 };
        self.robot.vel = rvel;
        // The firing solution, from the state before anything moves.
        let s1 = Shooter { bearing, turret_angle: self.shooter.turret_angle, speed };
        let sol = solve(&s1, &self.robot.pos, &self.target);
        let s2 = Shooter { bearing, turret_angle: sol.turret_angle, speed };
        let shot = launch_velocity(&s2, &sol, &rvel);
        let spawn_pos = self.robot.pos;
        self.shooter = s2;
        // Move the shooter's body, unless it has reached the numeric
        // boundary of the world.
        let can_move = -ROAM_LIM <= self.robot.pos.x && self.robot.pos.x <= ROAM_LIM && -ROAM_LIM
            <= self.robot.pos.y && self.robot.pos.y <= ROAM_LIM && -ROAM_LIM <= self.robot.pos.z
            && self.robot.pos.z <= ROAM_LIM;
        if can_move {
            proof {
                lemma_advance_dragless(self.robot@, dt as int);
                lemma_fx_mul_bound(rvel@.x, dt as int, 5_200_000, DT_LIM as int);
                lemma_fx_mul_bound(rvel@.y, dt as int, 5_200_000, DT_LIM as int);
                lemma_fx_mul_bound(rvel@.z, dt as int, 5_200_000, DT_LIM as int);
            }
            let stepped = self.robot.advance(dt);
            self.robot = stepped.0;
        }
        // Move every live projectile by the same dt; terminal ones go.
        let ghost balls_g = self.balls@.map_values(|b: Body| b@);
        let mut out: Vec<Body> = Vec::new();
        let mut i: usize = 0;
        proof {
            assert(out@.map_values(|b: Body| b@) =~= step_balls_spec(balls_g.take(0), dt as int));
        }
        while i < self.balls.len()
            invariant
                i <= self.balls.len(),
                balls_g == self.balls@.map_values(|b: Body| b@),
                out@.map_values(|b: Body| b@) == step_balls_spec(balls_g.take(i as int), dt as int),
                0 < dt <= DT_LIM,
            decreases self.balls.len() - i,
        {
            let b = self.balls[i];
            let ghost out_pre = out@.map_values(|bb: Body| bb@);
            if b.in_range() {
                let stepped = b.advance(dt);
                if !stepped.1 {
                    out.push(stepped.0);
                }
            }
            proof {
                lemma_step_balls_snoc(balls_g.take(i as int), balls_g[i as int], dt as int);
                assert(balls_g.take(i as int + 1) =~= balls_g.take(i as int).push(
                    balls_g[i as int],
                ));
                assert(out@.map_values(|bb: Body| bb@) =~= out_pre + ball_contrib_spec(
                    balls_g[i as int],
                    dt as int,
                ));
            }
            i += 1;
        }
        proof {
            assert(balls_g.take(self.balls@.len() as int) =~= balls_g);
        }
        self.balls = out;
        // Fire edge: spawn exactly one projectile on a fresh press.
        let fired = input.fire && !self.fire_prev;
        if fired {
            let ball = Body {
                size: BALL_SIZE,
                pos: V3 { x: spawn_pos.x, y: spawn_pos.y, z: 0 },
                vel: shot,
                acc: V3 { x: 0, y: 0, z: BALL_GRAVITY },
            };
            let ghost pre = self.balls@.map_values(|b: Body| b@);
            self.balls.push(ball);
            proof {
                assert(self.balls@.map_values(|b: Body| b@) =~= pre.push(ball@));
            }
        }
        self.fire_prev = input.fire;
        fired
    }
}

} // verus!
