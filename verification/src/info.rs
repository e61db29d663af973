//! Read-only flight and performance read-outs, and the camera mode: the
//! small pure computations behind the HUD. The display layer owns timers
//! and rendering; it hands plain values in and draws what comes back.

use vstd::prelude::*;

verus! {

use crate::fixed::div_floor;
use crate::fixed::div_trunc;
use crate::fixed::isqrt;
use crate::fixed::spec_isqrt;
use crate::fixed::FX_ONE;
use crate::newton_body::NewtonBody;
use crate::Dt;

/// Flight read-out: the rocket's speed over the ground frame, in whole
/// metres per second, and the distance to the tracked surface when a
/// consumer fills it in.
#[derive(Clone, Copy, Debug, PartialEq, Eq, Structural)]
pub struct FlightInfo {
    pub delta: i128,
    pub distance: i128,
}

/// The speed a body's velocity vector amounts to, in whole metres per
/// second: the floor square root of the squared metre-resolution speed.
pub open spec fn spec_speed_m(b: NewtonBody) -> int {
    let vxm = crate::fixed::spec_div_trunc(b.vel.x as int, FX_ONE as int);
    let vym = crate::fixed::spec_div_trunc(b.vel.y as int, FX_ONE as int);
    spec_isqrt(vxm * vxm + vym * vym)
}

/// Refreshes the speed read-out from a body's current velocity.
pub fn flight_info(n_body: &NewtonBody, info: &mut FlightInfo)
    requires
        n_body.wf(),
    ensures
        final(info).delta == spec_speed_m(*n_body),
        final(info).distance == old(info).distance,
{
    proof {
        crate::fixed::lemma_div_trunc_ordered(
            n_body.vel.x as int,
            FX_ONE as int,
            crate::VEL_LIMIT_FX as int,
        );
        crate::fixed::lemma_div_trunc_ordered(
            n_body.vel.y as int,
            FX_ONE as int,
            crate::VEL_LIMIT_FX as int,
        );
        assert(crate::VEL_LIMIT_FX as int / (FX_ONE as int) == 500000000);
    }
    let vxm: i128 = div_trunc(n_body.vel.x, FX_ONE);
    let vym: i128 = div_trunc(n_body.vel.y, FX_ONE);
    proof {
        crate::fixed::lemma_mul_bound(vxm as int, vxm as int, 500000000, 500000000);
        crate::fixed::lemma_mul_bound(vym as int, vym as int, 500000000, 500000000);
        assert(vxm as int * vxm as int >= 0 && vym as int * vym as int >= 0)
            by (nonlinear_arith);
    }
    let sq: i128 = vxm * vxm + vym * vym;
    let root: u128 = isqrt(sq as u128);
    info.delta = root as i128;
}

/// Performance read-out: frames per second and the last frame time in
/// microseconds. The refresh timer lives with the display layer.
#[derive(Clone, Copy, Debug, PartialEq, Eq, Structural)]
pub struct PerformanceInfo {
    pub fps: u64,
    pub frame_time: u64,
}

/// Refreshes the performance read-out: the reciprocal of the time step,
/// floored to whole frames per second, and the reported frame time.
pub fn update_info(dt: &Dt, frame_time_micros: u64, info: &mut PerformanceInfo)
    requires
        dt.valid(),
    ensures
        dt.0 > 0 ==> final(info).fps == (FX_ONE as int) / (dt.0 as int),
        dt.0 == 0 ==> final(info).fps == 0,
        final(info).frame_time == frame_time_micros,
{
    if dt.0 > 0 {
        proof {
            vstd::arithmetic::div_mod::lemma_div_pos_is_pos(FX_ONE as int, dt.0 as int);
            crate::fixed::lemma_div_magnitude(FX_ONE as int, dt.0 as int);
        }
        let f: i128 = div_floor(FX_ONE, dt.0);
        info.fps = f as u64;
    } else {
        info.fps = 0;
    }
    info.frame_time = frame_time_micros;
}

/// The camera's two modes: the whole system, or the landing close-up.
#[derive(Clone, Copy, Debug, PartialEq, Eq, Structural)]
pub enum CameraMode {
    Default,
    Landing,
}

impl CameraMode {
    /// The other mode: toggling from the default selects the landing
    /// close-up, and anything else returns to the default.
    pub fn switched(self) -> (r: CameraMode)
        ensures
            self == CameraMode::Default ==> r == CameraMode::Landing,
            self != CameraMode::Default ==> r == CameraMode::Default,
    {
        if self == CameraMode::Default {
            CameraMode::Landing
        } else {
            CameraMode::Default
        }
    }
}

/// An axis-aligned screen rectangle: top-left corner and size in pixels.
#[derive(Clone, Copy, Debug, PartialEq, Eq, Structural)]
pub struct ScreenRect {
    pub x: i32,
    pub y: i32,
    pub w: u32,
    pub h: u32,
}

/// The square viewport for a window of `x` by `y` pixels: the largest
/// centred square, returned once at the origin (the render target) and
/// once shifted into the window's padding.
pub fn get_space_rect(x: i32, y: i32) -> (r: (ScreenRect, ScreenRect))
    requires
        0 <= x,
        0 <= y,
    ensures
        x > y ==> r == (
            (
                ScreenRect { x: 0, y: 0, w: y as u32, h: y as u32 },
                ScreenRect { x: ((x - y) / 2) as i32, y: 0, w: y as u32, h: y as u32 },
            )
        ),
        x < y ==> r == (
            (
                ScreenRect { x: 0, y: 0, w: x as u32, h: x as u32 },
                ScreenRect { x: 0, y: ((y - x) / 2) as i32, w: x as u32, h: x as u32 },
            )
        ),
        x == y ==> r == (
            (
                ScreenRect { x: 0, y: 0, w: x as u32, h: x as u32 },
                ScreenRect { x: 0, y: 0, w: x as u32, h: x as u32 },
            )
        ),
{
    if x > y {
        let side: u32 = y as u32;
        let pad: i32 = (((x - y) as u32) / 2) as i32;
        (
            ScreenRect { x: 0, y: 0, w: side, h: side },
            ScreenRect { x: pad, y: 0, w: side, h: side },
        )
    } else if x < y {
        let side: u32 = x as u32;
        let pad: i32 = (((y - x) as u32) / 2) as i32;
        (
            ScreenRect { x: 0, y: 0, w: side, h: side },
            ScreenRect { x: 0, y: pad, w: side, h: side },
        )
    } else {
        let side: u32 = x as u32;
        (
            ScreenRect { x: 0, y: 0, w: side, h: side },
            ScreenRect { x: 0, y: 0, w: side, h: side },
        )
    }
}

} // verus!
