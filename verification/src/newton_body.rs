//! The kinematic core of every massive body: mass, position, velocity,
//! acceleration, orientation angle and angular velocity, all in fixed point.

use vstd::prelude::*;

verus! {

use crate::fixed::mod_euclid;
use crate::fixed::mul_fx;
use crate::fixed::FX_ONE;
use crate::fixed::G_SHIFT_60;
use crate::fixed::TAU_FX;
use crate::vec2::Vec2Fx;
use crate::Dt;
use crate::SimError;
use crate::ACC_LIMIT_FX;
use crate::ANG_VEL_LIMIT_FX;
use crate::MASS_MAX;
use crate::POS_LIMIT_FX;
use crate::VEL_LIMIT_FX;

/// A body's standard gravitational parameter `G * mass`, scaled by `2^32`
/// (the quantity the pairwise force law actually needs).
pub open spec fn spec_gm(mass: int) -> int {
    (mass * G_SHIFT_60) / 0x10000000
}

/// A massive body participating in gravity.
///
/// `mass` is in whole kilograms and never changes at runtime; `gm` caches
/// `spec_gm(mass)`. Orientation is a scalar angle in radians, renormalized
/// into `[0, 2*pi)` after every update. The integrator is a single
/// semi-implicit Euler step (velocity, then position), so no previous
/// position is kept.
#[derive(Clone, Copy, Debug, PartialEq, Eq, Structural)]
pub struct NewtonBody {
    pub mass: i128,
    pub gm: i128,
    pub acc: Vec2Fx,
    pub vel: Vec2Fx,
    pub angle: i128,
    pub angular_vel: i128,
    pub pos: Vec2Fx,
}

/// Orientation update: `angle + angular_vel * dt`, renormalized into
/// `[0, 2*pi)` by a Euclidean remainder.
pub open spec fn spec_advance_angle(angle: int, angular_vel: int, dt: int) -> int {
    (angle + (angular_vel * dt) / (FX_ONE as int)) % (TAU_FX as int)
}

/// A well-formed mass has a nonnegative gravitational parameter, capped by
/// the parameter of the heaviest accepted mass.
pub proof fn lemma_gm_bounds(mass: int)
    requires
        0 < mass <= MASS_MAX,
    ensures
        0 <= spec_gm(mass) <= 1146636009216308593750000000000int,
{
    vstd::arithmetic::div_mod::lemma_div_is_ordered(
        mass * G_SHIFT_60,
        MASS_MAX as int * G_SHIFT_60,
        0x10000000,
    );
    vstd::arithmetic::div_mod::lemma_div_pos_is_pos(mass * G_SHIFT_60, 0x10000000);
}

/// Advances an orientation angle by `angular_vel * dt` and renormalizes it
/// into `[0, 2*pi)`.
pub fn advance_angle(angle: i128, angular_vel: i128, dt: i128) -> (r: i128)
    requires
        0 <= angle < TAU_FX,
        -ANG_VEL_LIMIT_FX <= angular_vel <= ANG_VEL_LIMIT_FX,
        0 <= dt <= crate::DT_MAX_FX,
    ensures
        r == spec_advance_angle(angle as int, angular_vel as int, dt as int),
        0 <= r < TAU_FX,
{
    proof {
        crate::fixed::lemma_mul_bound(
            angular_vel as int,
            dt as int,
            ANG_VEL_LIMIT_FX as int,
            crate::DT_MAX_FX as int,
        );
        crate::fixed::lemma_div_magnitude(angular_vel as int * dt as int, FX_ONE as int);
    }
    let delta: i128 = mul_fx(angular_vel, dt);
    mod_euclid(angle + delta, TAU_FX)
}

impl NewtonBody {
    /// Well-formedness: every kinematic quantity stays inside the simulation
    /// envelope, the orientation is normalized, and `gm` is the cached
    /// gravitational parameter of the (positive, bounded) mass.
    pub open spec fn wf(self) -> bool {
        &&& 0 < self.mass <= MASS_MAX
        &&& self.gm == spec_gm(self.mass as int)
        &&& -POS_LIMIT_FX <= self.pos.x <= POS_LIMIT_FX
        &&& -POS_LIMIT_FX <= self.pos.y <= POS_LIMIT_FX
        &&& -VEL_LIMIT_FX <= self.vel.x <= VEL_LIMIT_FX
        &&& -VEL_LIMIT_FX <= self.vel.y <= VEL_LIMIT_FX
        &&& -ACC_LIMIT_FX <= self.acc.x <= ACC_LIMIT_FX
        &&& -ACC_LIMIT_FX <= self.acc.y <= ACC_LIMIT_FX
        &&& 0 <= self.angle < TAU_FX
        &&& -ANG_VEL_LIMIT_FX <= self.angular_vel <= ANG_VEL_LIMIT_FX
    }

    /// Builds a body with zero initial acceleration, rejecting any quantity
    /// outside the simulation envelope (in particular a non-positive mass)
    /// with a `ConfigurationError`, so malformed bodies never reach the
    /// integrator.
    pub fn new(
        mass: i128,
        pos: Vec2Fx,
        vel: Vec2Fx,
        angle: i128,
        angular_vel: i128,
    ) -> (r: Result<NewtonBody, SimError>)
        ensures
            r is Ok <==> {
                &&& 0 < mass <= MASS_MAX
                &&& -POS_LIMIT_FX <= pos.x <= POS_LIMIT_FX
                &&& -POS_LIMIT_FX <= pos.y <= POS_LIMIT_FX
                &&& -VEL_LIMIT_FX <= vel.x <= VEL_LIMIT_FX
                &&& -VEL_LIMIT_FX <= vel.y <= VEL_LIMIT_FX
                &&& 0 <= angle < TAU_FX
                &&& -ANG_VEL_LIMIT_FX <= angular_vel <= ANG_VEL_LIMIT_FX
            },
            r matches Ok(b) ==> b.wf() && b.mass == mass && b.pos == pos && b.vel == vel
                && b.angle == angle && b.angular_vel == angular_vel && b.acc.x == 0 && b.acc.y
                == 0,
            r matches Err(e) ==> e == SimError::ConfigurationError,
    {
        if mass <= 0 || mass > MASS_MAX || pos.x < -POS_LIMIT_FX || pos.x > POS_LIMIT_FX
            || pos.y < -POS_LIMIT_FX || pos.y > POS_LIMIT_FX || vel.x < -VEL_LIMIT_FX || vel.x
            > VEL_LIMIT_FX || vel.y < -VEL_LIMIT_FX || vel.y > VEL_LIMIT_FX || angle < 0 || angle
            >= TAU_FX || angular_vel < -ANG_VEL_LIMIT_FX || angular_vel > ANG_VEL_LIMIT_FX {
            Err(SimError::ConfigurationError)
        } else {
            proof {
                assert((mass as u128) * (G_SHIFT_60 as u128) <= (MASS_MAX as u128) * (
                G_SHIFT_60 as u128)) by (nonlinear_arith)
                    requires
                        0 < mass <= MASS_MAX,
                        G_SHIFT_60 == 76949440,
                        MASS_MAX == 4000000000000000000000000000000,
                ;
                vstd::arithmetic::div_mod::lemma_div_is_ordered(
                    mass as int * G_SHIFT_60 as int,
                    MASS_MAX as int * G_SHIFT_60 as int,
                    0x10000000,
                );
                vstd::arithmetic::div_mod::lemma_div_pos_is_pos(
                    mass as int * G_SHIFT_60 as int,
                    0x10000000,
                );
            }
            let gm_wide: u128 = (mass as u128) * (G_SHIFT_60 as u128) / 0x10000000;
            let gm: i128 = gm_wide as i128;
            Ok(NewtonBody { mass, gm, acc: Vec2Fx { x: 0, y: 0 }, vel, angle, angular_vel, pos })
        }
    }

    /// Advances the orientation by one time step and renormalizes it, leaving
    /// every other field untouched.
    pub fn update_a(&mut self, dt: &Dt)
        requires
            old(self).wf(),
            dt.valid(),
        ensures
            final(self).angle == spec_advance_angle(
                old(self).angle as int,
                old(self).angular_vel as int,
                dt.0 as int,
            ),
            final(self).wf(),
            final(self).mass == old(self).mass && final(self).gm == old(self).gm && final(self).acc
                == old(self).acc && final(self).vel == old(self).vel && final(self).angular_vel
                == old(self).angular_vel && final(self).pos == old(self).pos,
    {
        self.angle = advance_angle(self.angle, self.angular_vel, dt.0);
    }
}

} // verus!
