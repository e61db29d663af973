//! Celestial bodies: the tag and surface shape attached to massive bodies
//! that own a fixed circular surface (the star and the planets).

use vstd::prelude::*;

verus! {

use crate::SimError;
use crate::POS_LIMIT_FX;

/// The class of a celestial body.
#[derive(Clone, Copy, Debug, PartialEq, Eq, Structural)]
pub enum CelestialBodyType {
    Star,
    Planet,
}

/// The celestial tag: a body class plus a surface radius in fixed-point
/// metres. The render colour the display layer keeps alongside the radius is
/// owned by that layer, not by the simulation core.
#[derive(Clone, Copy, Debug, PartialEq, Eq, Structural)]
pub struct CelestialBody {
    pub b_type: CelestialBodyType,
    pub radius: i128,
}

impl CelestialBody {
    /// A surface radius is nonnegative and no wider than the playing field.
    pub open spec fn wf(self) -> bool {
        0 <= self.radius <= POS_LIMIT_FX
    }

    /// Builds a celestial tag, rejecting a malformed radius before it can
    /// reach the integrator or the landing detector.
    pub fn new(b_type: CelestialBodyType, radius: i128) -> (r: Result<CelestialBody, SimError>)
        ensures
            (0 <= radius <= POS_LIMIT_FX) <==> r is Ok,
            r matches Ok(c) ==> c == (CelestialBody { b_type, radius }) && c.wf(),
            r matches Err(e) ==> e == SimError::ConfigurationError,
    {
        if radius < 0 || radius > POS_LIMIT_FX {
            Err(SimError::ConfigurationError)
        } else {
            Ok(CelestialBody { b_type, radius })
        }
    }
}

} // verus!
