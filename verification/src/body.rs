//! The kinematic integrator: a point mass advances one tick under its
//! acceleration and a drag force proportional to its speed and size, and
//! reports ground impact. The update is semi-implicit Euler: velocity
//! first, then position from the new velocity.

use vstd::prelude::*;
use crate::vec3::{V3, V3g};
use crate::fixed::{
    fx_abs, fx_mul_spec, fx_div_spec, fx_sqrt_spec, fx_mul, fx_div, fx_sqrt,
    lemma_fx_mul_bound, lemma_fx_div_bound, lemma_fx_square_nonneg, lemma_isqrt_upper,
};
use crate::angle::{atan_spec, cos_spec, atan_fx, cos_fx};

verus! {

/// Drag strength per unit of body size (half the drag coefficient of a
/// sphere times the air density, in fixed point).
pub const AIR_RES: i64 = 300_800;

/// Largest coordinate magnitude the integrator accepts in one step.
pub const POS_LIM: i64 = 100_000_000_000;

/// Largest velocity component magnitude the integrator accepts.
pub const VEL_LIM: i64 = 100_000_000_000;

/// Largest acceleration component magnitude the integrator accepts.
pub const ACC_LIM: i64 = 100_000_000;

/// Largest body size the integrator accepts.
pub const SIZE_LIM: i64 = 10_000_000;

/// Largest tick duration: one second.
pub const DT_LIM: i64 = 1_000_000;

/// A simulated point mass.
#[derive(Clone, Copy, PartialEq, Eq, Structural, Debug)]
pub struct Body {
    /// Surface area over mass: the per-body drag coefficient; zero for
    /// bodies not subject to drag.
    pub size: i64,
    /// Position in arena units (z is height).
    pub pos: V3,
    /// Velocity in units per second.
    pub vel: V3,
    /// Acceleration in units per second squared.
    pub acc: V3,
}

/// The mathematical value of a `Body`.
pub ghost struct BodyG {
    pub size: int,
    pub pos: V3g,
    pub vel: V3g,
    pub acc: V3g,
}

impl View for Body {
    type V = BodyG;

    open spec fn view(&self) -> BodyG {
        BodyG { size: self.size as int, pos: self.pos@, vel: self.vel@, acc: self.acc@ }
    }
}

/// Every component of `v` has magnitude at most `lim`.
pub open spec fn v3_in_range(v: V3g, lim: int) -> bool {
    fx_abs(v.x) <= lim && fx_abs(v.y) <= lim && fx_abs(v.z) <= lim
}

/// The body's state is within the integrator's one-step numeric range.
pub open spec fn body_in_range(b: BodyG) -> bool {
    &&& v3_in_range(b.pos, POS_LIM as int)
    &&& v3_in_range(b.vel, VEL_LIM as int)
    &&& v3_in_range(b.acc, ACC_LIM as int)
    &&& 0 <= b.size <= SIZE_LIM as int
}

/// The velocity after one tick: acceleration first, then a drag impulse
/// proportional to the new speed scaled by the tick length. When the
/// x-velocity is nonzero the horizontal drag acts along the direction
/// recovered by arctangent of y over x and is applied to x only;
/// otherwise it is applied to y only. Vertical drag always applies.
pub open spec fn advance_vel_spec(b: BodyG, dt: int) -> V3g {
    let vx1 = b.vel.x + fx_mul_spec(b.acc.x, dt);
    let vy1 = b.vel.y + fx_mul_spec(b.acc.y, dt);
    let vz1 = b.vel.z + fx_mul_spec(b.acc.z, dt);
    let speed = fx_mul_spec(
        fx_sqrt_spec(
            fx_mul_spec(vx1, vx1) + fx_mul_spec(vy1, vy1) + fx_mul_spec(vz1, vz1),
        ),
        dt,
    );
    let drag = fx_mul_spec(fx_mul_spec(AIR_RES as int, b.size), speed);
    let vx2 = if vx1 != 0 {
        vx1 - fx_mul_spec(drag, cos_spec(atan_spec(fx_div_spec(vy1, vx1))))
    } else {
        vx1
    };
    let vy2 = if vx1 != 0 {
        vy1
    } else {
        vy1 - drag
    };
    V3g { x: vx2, y: vy2, z: vz1 - drag }
}

/// The body after one tick: new velocity, then position moved by the new
/// velocity scaled by the tick length.
pub open spec fn advance_spec(b: BodyG, dt: int) -> BodyG {
    let v2 = advance_vel_spec(b, dt);
    BodyG {
        size: b.size,
        pos: V3g {
            x: b.pos.x + fx_mul_spec(v2.x, dt),
            y: b.pos.y + fx_mul_spec(v2.y, dt),
            z: b.pos.z + fx_mul_spec(v2.z, dt),
        },
        vel: v2,
        acc: b.acc,
    }
}

/// The body hits the ground this tick: its new height is below zero.
pub open spec fn hits_ground_spec(b: BodyG, dt: int) -> bool {
    advance_spec(b, dt).pos.z < 0
}

/// A body with zero size and zero acceleration keeps its velocity: drag
/// and gravity vanish, so one tick only moves it by its velocity.
pub proof fn lemma_advance_dragless(b: BodyG, dt: int)
    requires
        b.size == 0,
        b.acc == (V3g { x: 0, y: 0, z: 0 }),
    ensures
        advance_spec(b, dt) == (BodyG {
            size: b.size,
            pos: V3g {
                x: b.pos.x + fx_mul_spec(b.vel.x, dt),
                y: b.pos.y + fx_mul_spec(b.vel.y, dt),
                z: b.pos.z + fx_mul_spec(b.vel.z, dt),
            },
            vel: b.vel,
            acc: b.acc,
        }),
{
    assert(fx_mul_spec(0, dt) == 0);
    assert(fx_mul_spec(AIR_RES as int, 0) == 0);
    let vx1 = b.vel.x + fx_mul_spec(b.acc.x, dt);
    let vy1 = b.vel.y + fx_mul_spec(b.acc.y, dt);
    let vz1 = b.vel.z + fx_mul_spec(b.acc.z, dt);
    assert(vx1 == b.vel.x && vy1 == b.vel.y && vz1 == b.vel.z);
    let speed = fx_mul_spec(
        fx_sqrt_spec(fx_mul_spec(vx1, vx1) + fx_mul_spec(vy1, vy1) + fx_mul_spec(vz1, vz1)),
        dt,
    );
    assert(fx_mul_spec(fx_mul_spec(AIR_RES as int, b.size), speed) == 0);
    assert(advance_vel_spec(b, dt) == b.vel);
}

impl Body {
    /// Whether this body is within the integrator's one-step range.
    pub fn in_range(&self) -> (r: bool)
        ensures
            r == body_in_range(self@),
    {
        -POS_LIM <= self.pos.x && self.pos.x <= POS_LIM && -POS_LIM <= self.pos.y && self.pos.y
            <= POS_LIM && -POS_LIM <= self.pos.z && self.pos.z <= POS_LIM && -VEL_LIM
            <= self.vel.x && self.vel.x <= VEL_LIM && -VEL_LIM <= self.vel.y && self.vel.y
            <= VEL_LIM && -VEL_LIM <= self.vel.z && self.vel.z <= VEL_LIM && -ACC_LIM
            <= self.acc.x && self.acc.x <= ACC_LIM && -ACC_LIM <= self.acc.y && self.acc.y
            <= ACC_LIM && -ACC_LIM <= self.acc.z && self.acc.z <= ACC_LIM && 0 <= self.size
            && self.size <= SIZE_LIM
    }

    /// Advance this body by one tick of length `dt` and report whether it
    /// hit the ground (the caller removes such a body; the integrator
    /// never removes anything itself).
    pub fn advance(&self, dt: i64) -> (r: (Body, bool))
        requires
            body_in_range(self@),
            0 < dt <= DT_LIM,
        ensures
            r.0@ == advance_spec(self@, dt as int),
            r.1 == hits_ground_spec(self@, dt as int),
    {
        proof {
            lemma_fx_mul_bound(self.acc.x as int, dt as int, ACC_LIM as int, DT_LIM as int);
            lemma_fx_mul_bound(self.acc.y as int, dt as int, ACC_LIM as int, DT_LIM as int);
            lemma_fx_mul_bound(self.acc.z as int, dt as int, ACC_LIM as int, DT_LIM as int);
        }
        let vx1 = self.vel.x + fx_mul(self.acc.x, dt);
        let vy1 = self.vel.y + fx_mul(self.acc.y, dt);
        let vz1 = self.vel.z + fx_mul(self.acc.z, dt);
        proof {
            lemma_fx_mul_bound(vx1 as int, vx1 as int, 100_100_000_000, 100_100_000_000);
            lemma_fx_mul_bound(vy1 as int, vy1 as int, 100_100_000_000, 100_100_000_000);
            lemma_fx_mul_bound(vz1 as int, vz1 as int, 100_100_000_000, 100_100_000_000);
            lemma_fx_square_nonneg(vx1 as int);
            lemma_fx_square_nonneg(vy1 as int);
            lemma_fx_square_nonneg(vz1 as int);
        }
        let sq = fx_mul(vx1, vx1) + fx_mul(vy1, vy1) + fx_mul(vz1, vz1);
        let mag = fx_sqrt(sq);
        proof {
            lemma_isqrt_upper((sq as int) * 1_000_000, mag as int, 173_400_000_000);
            lemma_fx_mul_bound(mag as int, dt as int, 173_400_000_000, DT_LIM as int);
            lemma_fx_mul_bound(AIR_RES as int, self.size as int, AIR_RES as int, SIZE_LIM as int);
        }
        let speed = fx_mul(mag, dt);
        let df = fx_mul(AIR_RES, self.size);
        proof {
            lemma_fx_mul_bound(df as int, speed as int, 3_008_000, 173_400_000_000);
        }
        let drag = fx_mul(df, speed);
        let (vx2, vy2) = if vx1 != 0 {
            proof {
                lemma_fx_div_bound(vy1 as int, vx1 as int, 100_100_000_000, 1);
            }
            let ang = atan_fx(fx_div(vy1, vx1));
            let c = cos_fx(ang);
            proof {
                lemma_fx_mul_bound(drag as int, c as int, 521_587_200_000, 2_600_000);
            }
            (vx1 - fx_mul(drag, c), vy1)
        } else {
            (vx1, vy1 - drag)
        };
        let vz2 = vz1 - drag;
        proof {
            lemma_fx_mul_bound(vx2 as int, dt as int, 1_456_226_720_000, DT_LIM as int);
            lemma_fx_mul_bound(vy2 as int, dt as int, 1_456_226_720_000, DT_LIM as int);
            lemma_fx_mul_bound(vz2 as int, dt as int, 1_456_226_720_000, DT_LIM as int);
        }
        let px2 = self.pos.x + fx_mul(vx2, dt);
        let py2 = self.pos.y + fx_mul(vy2, dt);
        let pz2 = self.pos.z + fx_mul(vz2, dt);
        let out = Body {
            size: self.size,
            pos: V3 { x: px2, y: py2, z: pz2 },
            vel: V3 { x: vx2, y: vy2, z: vz2 },
            acc: self.acc,
        };
        (out, pz2 < 0)
    }
}

} // verus!
