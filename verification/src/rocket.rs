//! The rocket and its thrust model: four engine slots with fixed thrust
//! directions and clamped throttles, the discrete player intents, and the
//! per-tick conversion of intents into engine settings, angular velocity and
//! a net local-frame force rotated into the world frame.
//!
//! The thrust model only adjusts engine and angular state and reports the
//! world-frame force; the force is handed to the gravity integrator as an
//! external acceleration, so thrust is additive to gravity rather than a
//! second integration pass.

use vstd::prelude::*;

verus! {

use crate::fixed::lemma_div_bound_within;
use crate::fixed::lemma_mul_bound;
use crate::fixed::mul_fx;
use crate::fixed::spec_clamp;
use crate::fixed::FRAC_PI_8_FX;
use crate::fixed::FX_ONE;
use crate::trig::cos_fx;
use crate::trig::sin_fx;
use crate::trig::spec_cos_fx;
use crate::trig::spec_sin_fx;
use crate::vec2::Vec2Fx;
use crate::newton_body::NewtonBody;
use crate::Dt;
use crate::ANG_VEL_LIMIT_FX;
use crate::DT_MAX_FX;

/// Thrust of a fully open engine, in fixed-point newtons.
pub const AVERSE_TRUST: i128 = 343430000000000 * FX_ONE;

/// One engine slot: a fixed thrust-direction vector (already scaled by the
/// engine's full thrust) and a throttle in `[0, 1]`.
#[derive(Clone, Copy, Debug, PartialEq, Eq, Structural)]
pub struct Engine {
    pub vector: Vec2Fx,
    pub throttle: i128,
}

impl Engine {
    /// Thrust vector components stay within full engine thrust and the
    /// throttle is clamped into `[0, 1]`.
    pub open spec fn wf(self) -> bool {
        &&& -AVERSE_TRUST <= self.vector.x <= AVERSE_TRUST
        &&& -AVERSE_TRUST <= self.vector.y <= AVERSE_TRUST
        &&& 0 <= self.throttle <= FX_ONE
    }

    /// The engine's current thrust: its direction vector scaled by the
    /// throttle.
    pub open spec fn spec_trust(self) -> (int, int) {
        (
            (self.vector.x * self.throttle) / (FX_ONE as int),
            (self.vector.y * self.throttle) / (FX_ONE as int),
        )
    }

    /// Current thrust vector of this engine.
    pub fn trust(self) -> (r: Vec2Fx)
        requires
            self.wf(),
        ensures
            r.x == self.spec_trust().0,
            r.y == self.spec_trust().1,
            -AVERSE_TRUST <= r.x <= AVERSE_TRUST,
            -AVERSE_TRUST <= r.y <= AVERSE_TRUST,
    {
        proof {
            lemma_mul_bound(
                self.vector.x as int,
                self.throttle as int,
                AVERSE_TRUST as int,
                FX_ONE as int,
            );
            lemma_mul_bound(
                self.vector.y as int,
                self.throttle as int,
                AVERSE_TRUST as int,
                FX_ONE as int,
            );
            lemma_div_bound_within(
                self.vector.x as int * self.throttle as int,
                AVERSE_TRUST as int,
            );
            lemma_div_bound_within(
                self.vector.y as int * self.throttle as int,
                AVERSE_TRUST as int,
            );
        }
        Vec2Fx { x: mul_fx(self.vector.x, self.throttle), y: mul_fx(self.vector.y, self.throttle) }
    }

    /// Moves the throttle by `t` and clamps it back into `[0, 1]`.
    pub fn change_throttle(&mut self, t: i128)
        requires
            old(self).wf(),
            -DT_MAX_FX <= t <= DT_MAX_FX,
        ensures
            final(self).throttle == spec_clamp(
                old(self).throttle + t,
                0,
                FX_ONE as int,
            ),
            final(self).vector == old(self).vector,
            final(self).wf(),
    {
        let next: i128 = self.throttle + t;
        self.set_throttle(next);
    }

    /// Sets the throttle, clamped into `[0, 1]`.
    pub fn set_throttle(&mut self, t: i128)
        requires
            old(self).wf(),
        ensures
            final(self).throttle == spec_clamp(t as int, 0, FX_ONE as int),
            final(self).vector == old(self).vector,
            final(self).wf(),
    {
        self.throttle = if t < 0 {
            0
        } else if t > FX_ONE {
            FX_ONE
        } else {
            t
        };
    }

    /// Opens the engine fully.
    pub fn full(&mut self)
        requires
            old(self).wf(),
        ensures
            final(self).throttle == FX_ONE,
            final(self).vector == old(self).vector,
            final(self).wf(),
    {
        self.throttle = FX_ONE;
    }

    /// Shuts the engine off.
    pub fn disable(&mut self)
        requires
            old(self).wf(),
        ensures
            final(self).throttle == 0,
            final(self).vector == old(self).vector,
            final(self).wf(),
    {
        self.throttle = 0;
    }
}

/// The player-controlled rocket: fore, aft, left and right engine slots.
#[derive(Clone, Copy, Debug, PartialEq, Eq, Structural)]
pub struct Rocket {
    pub engine_averse: Engine,
    pub engine_reverse: Engine,
    pub engine_left: Engine,
    pub engine_right: Engine,
}

/// A discrete player intent, captured once per tick by the input layer.
#[derive(Clone, Copy, Debug, PartialEq, Eq, Hash, Structural)]
pub enum PlayerInput {
    MoveLeft,
    MoveRight,
    MoveForward,
    MoveBackward,
    RotateLeft,
    RotateRight,
    WindowResize(i32, i32),
    SwitchCamera,
}

impl Rocket {
    /// All four engines well-formed.
    pub open spec fn wf(self) -> bool {
        &&& self.engine_averse.wf()
        &&& self.engine_reverse.wf()
        &&& self.engine_left.wf()
        &&& self.engine_right.wf()
    }

    /// A fresh rocket: fore engine pushing toward negative y, aft toward
    /// positive y, lateral engines along x, all throttles shut.
    pub fn new() -> (r: Rocket)
        ensures
            r.engine_averse == (Engine {
                vector: Vec2Fx { x: 0, y: (-AVERSE_TRUST) as i128 },
                throttle: 0,
            }),
            r.engine_reverse == (Engine {
                vector: Vec2Fx { x: 0, y: AVERSE_TRUST },
                throttle: 0,
            }),
            r.engine_left == (Engine { vector: Vec2Fx { x: AVERSE_TRUST, y: 0 }, throttle: 0 }),
            r.engine_right == (Engine {
                vector: Vec2Fx { x: (-AVERSE_TRUST) as i128, y: 0 },
                throttle: 0,
            }),
            r.wf(),
    {
        Rocket {
            engine_averse: Engine { vector: Vec2Fx { x: 0, y: -AVERSE_TRUST }, throttle: 0 },
            engine_reverse: Engine { vector: Vec2Fx { x: 0, y: AVERSE_TRUST }, throttle: 0 },
            engine_left: Engine { vector: Vec2Fx { x: AVERSE_TRUST, y: 0 }, throttle: 0 },
            engine_right: Engine { vector: Vec2Fx { x: -AVERSE_TRUST, y: 0 }, throttle: 0 },
        }
    }

    /// Net local-frame thrust: the sum of the four engines' thrusts.
    pub open spec fn spec_rocket_trust(self) -> (int, int) {
        (
            self.engine_averse.spec_trust().0 + self.engine_reverse.spec_trust().0
                + self.engine_left.spec_trust().0 + self.engine_right.spec_trust().0,
            self.engine_averse.spec_trust().1 + self.engine_reverse.spec_trust().1
                + self.engine_left.spec_trust().1 + self.engine_right.spec_trust().1,
        )
    }

    /// Net local-frame thrust vector.
    pub fn trust(self) -> (r: Vec2Fx)
        requires
            self.wf(),
        ensures
            r.x == self.spec_rocket_trust().0,
            r.y == self.spec_rocket_trust().1,
            -4 * AVERSE_TRUST <= r.x <= 4 * AVERSE_TRUST,
            -4 * AVERSE_TRUST <= r.y <= 4 * AVERSE_TRUST,
    {
        let a: Vec2Fx = self.engine_averse.trust();
        let b: Vec2Fx = self.engine_reverse.trust();
        let c: Vec2Fx = self.engine_left.trust();
        let d: Vec2Fx = self.engine_right.trust();
        Vec2Fx { x: a.x + b.x + c.x + d.x, y: a.y + b.y + c.y + d.y }
    }
}

/// Whether the intent set contains a given intent.
pub fn has_input(input: &Vec<PlayerInput>, wanted: PlayerInput) -> (r: bool)
    ensures
        r == input@.contains(wanted),
{
    let n: usize = input.len();
    let mut i: usize = 0;
    while i < n
        invariant
            0 <= i <= n,
            n == input@.len(),
            forall|k: int| 0 <= k < i ==> input@[k] != wanted,
        decreases n - i,
    {
        if input[i] == wanted {
            assert(input@.contains(wanted));
            return true;
        }
        i = i + 1;
    }
    false
}

/// The rocket's engines after one tick of intents, mirroring the order the
/// thrust model applies them in: the lateral blocks run right then left (so
/// a held left intent wins over a held right one), forward ramps the fore
/// throttle by `dt`, backward first bleeds the fore throttle and only then
/// opens the aft engine.
pub open spec fn spec_rocket_after(r: Rocket, input: Seq<PlayerInput>, dt: int) -> Rocket {
    let mr = input.contains(PlayerInput::MoveRight);
    let ml = input.contains(PlayerInput::MoveLeft);
    let mf = input.contains(PlayerInput::MoveForward);
    let mb = input.contains(PlayerInput::MoveBackward);
    let left1 = if mr {
        FX_ONE as int
    } else {
        0
    };
    let right1 = if mr {
        0
    } else {
        r.engine_right.throttle as int
    };
    let left2 = if ml {
        0
    } else {
        left1
    };
    let right2 = if ml {
        FX_ONE as int
    } else {
        0
    };
    let av1 = if mf {
        spec_clamp(r.engine_averse.throttle + dt, 0, FX_ONE as int)
    } else {
        r.engine_averse.throttle as int
    };
    let av2 = if mb && av1 != 0 {
        spec_clamp(av1 - dt, 0, FX_ONE as int)
    } else {
        av1
    };
    let rev = if mb {
        if av1 != 0 {
            r.engine_reverse.throttle as int
        } else {
            FX_ONE as int
        }
    } else {
        0
    };
    Rocket {
        engine_averse: Engine { vector: r.engine_averse.vector, throttle: av2 as i128 },
        engine_reverse: Engine { vector: r.engine_reverse.vector, throttle: rev as i128 },
        engine_left: Engine { vector: r.engine_left.vector, throttle: left2 as i128 },
        engine_right: Engine { vector: r.engine_right.vector, throttle: right2 as i128 },
    }
}

/// The angular velocity after one tick of intents: a held rotation intent
/// accumulates `pi/8 * dt`, right taking precedence over left, and the
/// result saturates at the angular-speed envelope.
pub open spec fn spec_ang_vel_after(w: int, input: Seq<PlayerInput>, dt: int) -> int {
    let delta = (FRAC_PI_8_FX * dt) / (FX_ONE as int);
    if input.contains(PlayerInput::RotateRight) {
        spec_clamp(w + delta, -ANG_VEL_LIMIT_FX as int, ANG_VEL_LIMIT_FX as int)
    } else if input.contains(PlayerInput::RotateLeft) {
        spec_clamp(w - delta, -ANG_VEL_LIMIT_FX as int, ANG_VEL_LIMIT_FX as int)
    } else {
        w
    }
}

/// A local-frame force rotated into the world frame by the orientation
/// angle `a`: the rotation matrix applied with fixed-point products.
pub open spec fn spec_world_force(fx: int, fy: int, a: int) -> (int, int) {
    let c = spec_cos_fx(a);
    let s = spec_sin_fx(a);
    (
        (fx * c) / (FX_ONE as int) - (fy * s) / (FX_ONE as int),
        (fx * s) / (FX_ONE as int) + (fy * c) / (FX_ONE as int),
    )
}

/// One tick of the thrust model: consumes the intent snapshot, adjusts the
/// rocket's engines and the body's angular velocity, and returns the net
/// world-frame thrust force. Position, velocity and orientation are left to
/// the integrator, which folds the returned force into its accumulation.
pub fn update_positions(
    rocket: &mut Rocket,
    body: &mut NewtonBody,
    dt: &Dt,
    input: &Vec<PlayerInput>,
) -> (f: Vec2Fx)
    requires
        old(rocket).wf(),
        old(body).wf(),
        dt.valid(),
    ensures
        *final(rocket) == spec_rocket_after(*old(rocket), input@, dt.0 as int),
        final(rocket).wf(),
        final(body).angular_vel == spec_ang_vel_after(
            old(body).angular_vel as int,
            input@,
            dt.0 as int,
        ),
        final(body).wf(),
        final(body).mass == old(body).mass && final(body).gm == old(body).gm && final(body).acc
            == old(body).acc && final(body).vel == old(body).vel && final(body).angle == old(
            body,
        ).angle && final(body).pos == old(body).pos,
        f.x == spec_world_force(
            final(rocket).spec_rocket_trust().0,
            final(rocket).spec_rocket_trust().1,
            old(body).angle as int,
        ).0,
        f.y == spec_world_force(
            final(rocket).spec_rocket_trust().0,
            final(rocket).spec_rocket_trust().1,
            old(body).angle as int,
        ).1,
        -8 * AVERSE_TRUST <= f.x <= 8 * AVERSE_TRUST,
        -8 * AVERSE_TRUST <= f.y <= 8 * AVERSE_TRUST,
{
    proof {
        lemma_mul_bound(
            FRAC_PI_8_FX as int,
            dt.0 as int,
            FRAC_PI_8_FX as int,
            DT_MAX_FX as int,
        );
        crate::fixed::lemma_div_magnitude(FRAC_PI_8_FX as int * dt.0 as int, FX_ONE as int);
    }
    let delta: i128 = mul_fx(FRAC_PI_8_FX, dt.0);
    if has_input(input, PlayerInput::RotateRight) {
        let next: i128 = body.angular_vel + delta;
        body.angular_vel = if next < -ANG_VEL_LIMIT_FX {
            -ANG_VEL_LIMIT_FX
        } else if next > ANG_VEL_LIMIT_FX {
            ANG_VEL_LIMIT_FX
        } else {
            next
        };
    } else if has_input(input, PlayerInput::RotateLeft) {
        let next: i128 = body.angular_vel - delta;
        body.angular_vel = if next < -ANG_VEL_LIMIT_FX {
            -ANG_VEL_LIMIT_FX
        } else if next > ANG_VEL_LIMIT_FX {
            ANG_VEL_LIMIT_FX
        } else {
            next
        };
    }
    if has_input(input, PlayerInput::MoveRight) {
        rocket.engine_left.full();
        rocket.engine_right.disable();
    } else {
        rocket.engine_left.disable();
    }
    if has_input(input, PlayerInput::MoveLeft) {
        rocket.engine_right.full();
        rocket.engine_left.disable();
    } else {
        rocket.engine_right.disable();
    }
    if has_input(input, PlayerInput::MoveForward) {
        rocket.engine_averse.change_throttle(dt.0);
    }
    if has_input(input, PlayerInput::MoveBackward) {
        if rocket.engine_averse.throttle != 0 {
            rocket.engine_averse.change_throttle(-dt.0);
        } else {
            rocket.engine_reverse.full();
        }
    } else {
        rocket.engine_reverse.disable();
    }
    let f_local: Vec2Fx = rocket.trust();
    let c: i128 = cos_fx(body.angle);
    let s: i128 = sin_fx(body.angle);
    proof {
        lemma_mul_bound(f_local.x as int, c as int, 4 * AVERSE_TRUST as int, FX_ONE as int);
        lemma_mul_bound(f_local.y as int, s as int, 4 * AVERSE_TRUST as int, FX_ONE as int);
        lemma_mul_bound(f_local.x as int, s as int, 4 * AVERSE_TRUST as int, FX_ONE as int);
        lemma_mul_bound(f_local.y as int, c as int, 4 * AVERSE_TRUST as int, FX_ONE as int);
        lemma_div_bound_within(f_local.x as int * c as int, 4 * AVERSE_TRUST as int);
        lemma_div_bound_within(f_local.y as int * s as int, 4 * AVERSE_TRUST as int);
        lemma_div_bound_within(f_local.x as int * s as int, 4 * AVERSE_TRUST as int);
        lemma_div_bound_within(f_local.y as int * c as int, 4 * AVERSE_TRUST as int);
    }
    let wx: i128 = mul_fx(f_local.x, c) - mul_fx(f_local.y, s);
    let wy: i128 = mul_fx(f_local.x, s) + mul_fx(f_local.y, c);
    Vec2Fx { x: wx, y: wy }
}

} // verus!
