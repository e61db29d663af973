//! A small 2D orbital-mechanics core: massive bodies advancing under mutual
//! Newtonian gravity, a player-controlled rocket with four engines, proximity
//! geometry, a closest-body tracker, and a landing/resting state machine that
//! glues a landed body to a rotating planetary surface.
//!
//! All physical quantities are held in signed 64.32 fixed point: an `i128`
//! carries the value scaled by `2^32`. Positions and radii are in metres,
//! velocities in metres per second, angles in radians normalized to
//! `[0, 2*pi)`, masses in whole kilograms. Working in integers keeps every
//! step of the simulation exactly reproducible and lets each tick be given a
//! complete functional specification.

use vstd::prelude::*;

pub mod celestial_body;
pub mod collision;
pub mod fixed;
pub mod gravity;
pub mod info;
pub mod landing;
pub mod newton_body;
pub mod rocket;
pub mod system_generation;
pub mod tracker;
pub mod trig;
pub mod vec2;
pub mod world;

verus! {

use crate::fixed::FX_ONE;

/// Greatest body mass the store accepts, in kilograms (twice the heaviest
/// star the generator produces); keeps every gravitational product inside
/// 128 bits.
pub const MASS_MAX: i128 = 4000000000000000000000000000000;

/// Positions stay within 1e14 metres of the origin.
pub const POS_LIMIT_FX: i128 = 100000000000000 * FX_ONE;

/// Speeds stay below 5e8 metres per second (faster than light already).
pub const VEL_LIMIT_FX: i128 = 500000000 * FX_ONE;

/// Accelerations stay below 1e12 metres per second squared.
pub const ACC_LIMIT_FX: i128 = 1000000000000 * FX_ONE;

/// Angular speeds stay below 1e12 radians per second.
pub const ANG_VEL_LIMIT_FX: i128 = 1000000000000 * FX_ONE;

/// Longest accepted time step: 1e6 seconds.
pub const DT_MAX_FX: i128 = 1000000 * FX_ONE;

/// Most bodies a store will hold; the pairwise integrator is O(n^2) by
/// design, so the count stays small.
pub const MAX_BODIES: usize = 4096;

/// One tick's time step, in fixed-point seconds.
#[derive(Clone, Copy, Debug, PartialEq, Eq, Structural)]
pub struct Dt(pub i128);

impl Dt {
    /// A step is a nonnegative stretch of time no longer than `DT_MAX_FX`;
    /// a zero step is legal and must leave the system unchanged.
    pub open spec fn valid(self) -> bool {
        0 <= self.0 <= DT_MAX_FX
    }
}

/// Failure taxonomy of the simulation core.
///
/// `NumericalError` is fatal to the tick that raised it: a degenerate
/// (sub-metre) separation during force accumulation, or a quantity leaving
/// the representable fixed-point range (the integer analogue of a non-finite
/// float). `ConfigurationError` rejects malformed bodies before they ever
/// reach the integrator. `LookupError` reports an empty celestial catalogue;
/// callers recover by skipping landing detection for the tick.
#[derive(Clone, Copy, Debug, PartialEq, Eq, Structural)]
pub enum SimError {
    NumericalError,
    ConfigurationError,
    LookupError,
}

} // verus!
