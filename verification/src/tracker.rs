//! The closest-body tracker: per mobile body, the index of the nearest
//! celestial entry (first-encountered on equal distance — ties are
//! measure-zero in continuous motion) and the point of that body's surface
//! closest to the mobile body, expressed in the planet's rotating frame so
//! it stays valid as the planet spins.

use vstd::prelude::*;

verus! {

use crate::fixed::div_trunc;
use crate::fixed::mul_fx;
use crate::fixed::FX_ONE;
use crate::trig::cos_fx;
use crate::trig::sin_fx;
use crate::trig::spec_cos_fx;
use crate::trig::spec_sin_fx;
use crate::vec2::dist_sq_m;
use crate::vec2::scale_to_len;
use crate::vec2::spec_dist_sq_m;
use crate::vec2::spec_in_field;
use crate::vec2::spec_metres;
use crate::vec2::spec_scale_to_len;
use crate::vec2::Vec2Fx;
use crate::world::Entry;
use crate::SimError;
use crate::POS_LIMIT_FX;

/// The closest-celestial-body link: the index of the nearest celestial
/// entry and the closest point of its surface, in the planet's rotating
/// local frame. Recomputed every tick, never carried across one.
#[derive(Clone, Copy, Debug, PartialEq, Eq, Structural)]
pub struct ClosestCelestialBody {
    pub id: usize,
    pub closest_surface_point: Vec2Fx,
}

/// The index of the closest celestial entry among the first `k`, by squared
/// metre distance from `pos`; on a tie the earlier index is kept.
pub open spec fn spec_best(entries: Seq<Entry>, pos: Vec2Fx, k: int) -> Option<int>
    decreases k,
{
    if k <= 0 {
        None
    } else {
        let prev = spec_best(entries, pos, k - 1);
        if entries[k - 1].celestial is None {
            prev
        } else {
            match prev {
                None => Some(k - 1),
                Some(b) => if spec_dist_sq_m(pos, entries[k - 1].n_body.pos) < spec_dist_sq_m(
                    pos,
                    entries[b].n_body.pos,
                ) {
                    Some(k - 1)
                } else {
                    Some(b)
                },
            }
        }
    }
}

/// A found closest index is in range and names a celestial entry.
pub proof fn lemma_spec_best_celestial(entries: Seq<Entry>, pos: Vec2Fx, k: int)
    ensures
        spec_best(entries, pos, k) matches Some(b) ==> 0 <= b < k && entries[b].celestial
            is Some,
    decreases k,
{
    if k > 0 {
        lemma_spec_best_celestial(entries, pos, k - 1);
    }
}

/// A metre-scale displacement brought into the direction envelope of
/// `scale_to_len`: components beyond `2^33` are uniformly divided by
/// `2^15`, which leaves the direction essentially unchanged.
pub open spec fn spec_dir_reduce(x: int, y: int) -> (int, int) {
    if -0x200000000 <= x <= 0x200000000 && -0x200000000 <= y <= 0x200000000 {
        (x, y)
    } else {
        (crate::fixed::spec_div_trunc(x, 0x8000), crate::fixed::spec_div_trunc(y, 0x8000))
    }
}

/// The closest point of the planet's surface to `body_pos`, in the planet's
/// rotating local frame: the displacement rescaled to the surface radius,
/// then rotated back by the planet's orientation. A body at the planet's
/// exact centre gets the canonical top point.
#[verifier::opaque]
pub open spec fn spec_surface_point_local(
    planet_pos: Vec2Fx,
    planet_angle: int,
    radius: int,
    body_pos: Vec2Fx,
) -> (int, int) {
    let ux = spec_metres(body_pos.x - planet_pos.x);
    let uy = spec_metres(body_pos.y - planet_pos.y);
    let v = spec_dir_reduce(ux, uy);
    let off = if v.0 == 0 && v.1 == 0 {
        (0int, radius)
    } else {
        spec_scale_to_len(Vec2Fx { x: v.0 as i128, y: v.1 as i128 }, radius)
    };
    let c = spec_cos_fx(planet_angle);
    let s = spec_sin_fx(planet_angle);
    (
        (off.0 * c) / (FX_ONE as int) + (off.1 * s) / (FX_ONE as int),
        (off.1 * c) / (FX_ONE as int) - (off.0 * s) / (FX_ONE as int),
    )
}

/// Computes the local-frame closest surface point for a tracked planet.
pub fn surface_point_local(planet: &Entry, radius: i128, body_pos: Vec2Fx) -> (r: Vec2Fx)
    requires
        planet.n_body.wf(),
        spec_in_field(body_pos),
        0 <= radius <= POS_LIMIT_FX,
    ensures
        r.x == spec_surface_point_local(
            planet.n_body.pos,
            planet.n_body.angle as int,
            radius as int,
            body_pos,
        ).0,
        r.y == spec_surface_point_local(
            planet.n_body.pos,
            planet.n_body.angle as int,
            radius as int,
            body_pos,
        ).1,
        -2 * radius <= r.x <= 2 * radius,
        -2 * radius <= r.y <= 2 * radius,
{
    proof {
        reveal(spec_surface_point_local);
        crate::vec2::lemma_metre_bound_field(body_pos.x - planet.n_body.pos.x);
        crate::vec2::lemma_metre_bound_field(body_pos.y - planet.n_body.pos.y);
    }
    let ux: i128 = div_trunc(body_pos.x - planet.n_body.pos.x, FX_ONE);
    let uy: i128 = div_trunc(body_pos.y - planet.n_body.pos.y, FX_ONE);
    let (vx, vy): (i128, i128) = if -0x200000000 <= ux && ux <= 0x200000000 && -0x200000000 <= uy
        && uy <= 0x200000000 {
        (ux, uy)
    } else {
        proof {
            crate::vec2::lemma_reduced_in_envelope(ux as int, uy as int);
        }
        (div_trunc(ux, 0x8000), div_trunc(uy, 0x8000))
    };
    let off: Vec2Fx = if vx == 0 && vy == 0 {
        Vec2Fx { x: 0, y: radius }
    } else {
        proof {
            assert(vx as int * vx as int + vy as int * vy as int >= 1) by (nonlinear_arith)
                requires
                    !(vx == 0 && vy == 0),
            ;
        }
        scale_to_len(Vec2Fx { x: vx, y: vy }, radius)
    };
    let c: i128 = cos_fx(planet.n_body.angle);
    let s: i128 = sin_fx(planet.n_body.angle);
    proof {
        crate::fixed::lemma_mul_bound(off.x as int, c as int, radius as int, FX_ONE as int);
        crate::fixed::lemma_mul_bound(off.y as int, s as int, radius as int, FX_ONE as int);
        crate::fixed::lemma_mul_bound(off.y as int, c as int, radius as int, FX_ONE as int);
        crate::fixed::lemma_mul_bound(off.x as int, s as int, radius as int, FX_ONE as int);
        crate::fixed::lemma_div_bound_within(off.x as int * c as int, radius as int);
        crate::fixed::lemma_div_bound_within(off.y as int * s as int, radius as int);
        crate::fixed::lemma_div_bound_within(off.y as int * c as int, radius as int);
        crate::fixed::lemma_div_bound_within(off.x as int * s as int, radius as int);
    }
    Vec2Fx {
        x: mul_fx(off.x, c) + mul_fx(off.y, s),
        y: mul_fx(off.y, c) - mul_fx(off.x, s),
    }
}

/// Scans the store for the celestial entry nearest to `pos` and builds the
/// refreshed link. An empty celestial catalogue is the degenerate
/// `LookupError`; the caller skips landing detection for the tick.
pub fn closest_celestial(entries: &Vec<Entry>, pos: Vec2Fx) -> (r: Result<
    ClosestCelestialBody,
    SimError,
>)
    requires
        forall|i: int| 0 <= i < entries@.len() ==> (#[trigger] entries@[i]).n_body.wf(),
        forall|i: int|
            0 <= i < entries@.len() ==> ((#[trigger] entries@[i]).celestial matches Some(c)
                ==> c.wf()),
        spec_in_field(pos),
    ensures
        r is Err <==> spec_best(entries@, pos, entries@.len() as int) is None,
        r matches Err(e) ==> e == SimError::LookupError,
        r matches Ok(c) ==> {
            &&& spec_best(entries@, pos, entries@.len() as int) == Some(c.id as int)
            &&& c.id < entries@.len()
            &&& entries@[c.id as int].celestial is Some
            &&& c.closest_surface_point.x == spec_surface_point_local(
                entries@[c.id as int].n_body.pos,
                entries@[c.id as int].n_body.angle as int,
                entries@[c.id as int].celestial->Some_0.radius as int,
                pos,
            ).0
            &&& c.closest_surface_point.y == spec_surface_point_local(
                entries@[c.id as int].n_body.pos,
                entries@[c.id as int].n_body.angle as int,
                entries@[c.id as int].celestial->Some_0.radius as int,
                pos,
            ).1
        },
{
    let n: usize = entries.len();
    let mut best: Option<usize> = None;
    let mut i: usize = 0;
    while i < n
        invariant
            0 <= i <= n,
            n == entries@.len(),
            forall|k: int| 0 <= k < n ==> (#[trigger] entries@[k]).n_body.wf(),
            spec_in_field(pos),
            best is None <==> spec_best(entries@, pos, i as int) is None,
            best matches Some(b) ==> spec_best(entries@, pos, i as int) == Some(b as int) && b
                < n && entries@[b as int].celestial is Some,
        decreases n - i,
    {
        if entries[i].celestial.is_some() {
            match best {
                None => {
                    best = Some(i);
                },
                Some(b) => {
                    let db: i128 = dist_sq_m(pos, entries[b].n_body.pos);
                    let di: i128 = dist_sq_m(pos, entries[i].n_body.pos);
                    if di < db {
                        best = Some(i);
                    }
                },
            }
        }
        i = i + 1;
    }
    match best {
        None => Err(SimError::LookupError),
        Some(b) => {
            let radius: i128 = match entries[b].celestial {
                Some(c) => c.radius,
                None => 0,
            };
            let sp: Vec2Fx = surface_point_local(&entries[b], radius, pos);
            Ok(ClosestCelestialBody { id: b, closest_surface_point: sp })
        },
    }
}

} // verus!
