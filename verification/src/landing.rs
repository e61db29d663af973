//! The landing detector and the resting constraint.
//!
//! A mobile body is Flying while it carries no landing relation and Landed
//! once one is attached. The relation is created when the body's position
//! touches the tracked celestial body's surface circle; while it holds, the
//! resting constraint recomputes the body's pose from the planet's current
//! rotation instead of the integrator's output. A landed body takes off
//! again when its engines push outward harder than the planet's surface
//! gravity pulls in — the one deliberate departure from a design in which
//! landing would be permanent.

use vstd::prelude::*;

verus! {

use crate::fixed::div_floor;
use crate::fixed::div_trunc;
use crate::fixed::lemma_div_magnitude;
use crate::fixed::isqrt;
use crate::fixed::mod_euclid;
use crate::fixed::spec_isqrt;
use crate::fixed::FX_ONE;
use crate::fixed::TAU_FX;
use crate::trig::cos_fx;
use crate::trig::sin_fx;
use crate::trig::spec_cos_fx;
use crate::trig::spec_sin_fx;
use crate::vec2::dist_sq_m;
use crate::vec2::lemma_metre_bound_field;
use crate::vec2::scale_to_len;
use crate::vec2::spec_dist_sq_m;
use crate::vec2::spec_in_field;
use crate::vec2::spec_metres;
use crate::vec2::spec_scale_to_len;
use crate::vec2::Vec2Fx;
use crate::newton_body::NewtonBody;
use crate::gravity::GM_CAP_FX;
use crate::MASS_MAX;
use crate::POS_LIMIT_FX;

/// The landing relation: which celestial entry the body rests on, and the
/// contact direction in the planet's rotating frame at the moment of
/// landing, recorded for consumers that want the initial contact point.
#[derive(Clone, Copy, Debug, PartialEq, Eq, Structural)]
pub struct LandingRelation {
    pub planet_id: usize,
    pub angle_position: Vec2Fx,
}

/// Whether a mobile body touches a celestial surface: its metre distance to
/// the centre is within the surface radius, compared in squared form.
pub open spec fn spec_touching(body_pos: Vec2Fx, planet_pos: Vec2Fx, radius: int) -> bool {
    spec_dist_sq_m(body_pos, planet_pos) <= spec_metres(radius) * spec_metres(radius)
}

/// Surface-contact test between a mobile body and a celestial body.
pub fn landing_touches(body_pos: Vec2Fx, planet_pos: Vec2Fx, radius: i128) -> (r: bool)
    requires
        spec_in_field(body_pos),
        spec_in_field(planet_pos),
        0 <= radius <= POS_LIMIT_FX,
    ensures
        r == spec_touching(body_pos, planet_pos, radius as int),
{
    let sq: i128 = dist_sq_m(body_pos, planet_pos);
    proof {
        lemma_div_magnitude(radius as int, FX_ONE as int);
        vstd::arithmetic::div_mod::lemma_div_is_ordered(
            radius as int,
            POS_LIMIT_FX as int,
            FX_ONE as int,
        );
        vstd::arithmetic::div_mod::lemma_div_multiples_vanish(100000000000000, FX_ONE as int);
        assert(POS_LIMIT_FX as int == (FX_ONE as int) * 100000000000000) by (nonlinear_arith)
            requires
                POS_LIMIT_FX == 100000000000000 * 4294967296,
                FX_ONE == 4294967296,
        ;
        crate::fixed::lemma_mul_bound(
            (radius as int) / (FX_ONE as int),
            (radius as int) / (FX_ONE as int),
            100000000000000,
            100000000000000,
        );
    }
    let rm: i128 = div_floor(radius, FX_ONE);
    sq <= rm * rm
}

/// The unit "up" direction of a rotating surface at orientation `a`:
/// `(-sin a, cos a)`. The polynomial approximations can in principle leave
/// a short vector; below half a unit the canonical up direction stands in,
/// so the direction always has a healthy norm to renormalize from.
pub open spec fn spec_surface_dir(a: int) -> (int, int) {
    let s = spec_sin_fx(a);
    let c = spec_cos_fx(a);
    if s * s + c * c < 0x4000000000000000 {
        (0int, FX_ONE as int)
    } else {
        (-s, c)
    }
}

/// Computes the surface "up" direction for an orientation angle.
pub fn surface_dir(a: i128) -> (v: Vec2Fx)
    requires
        0 <= a < TAU_FX,
    ensures
        v.x == spec_surface_dir(a as int).0,
        v.y == spec_surface_dir(a as int).1,
        v.norm_sq() >= 0x4000000000000000,
        -FX_ONE <= v.x <= FX_ONE,
        -FX_ONE <= v.y <= FX_ONE,
{
    let s: i128 = sin_fx(a);
    let c: i128 = cos_fx(a);
    proof {
        crate::fixed::lemma_mul_bound(s as int, s as int, FX_ONE as int, FX_ONE as int);
        crate::fixed::lemma_mul_bound(c as int, c as int, FX_ONE as int, FX_ONE as int);
        assert(s as int * s as int >= 0 && c as int * c as int >= 0) by (nonlinear_arith);
    }
    let nsq: i128 = s * s + c * c;
    if nsq < 0x4000000000000000 {
        Vec2Fx { x: 0, y: FX_ONE }
    } else {
        proof {
            assert((-(s as int)) * (-(s as int)) == s as int * s as int) by (nonlinear_arith);
        }
        Vec2Fx { x: -s, y: c }
    }
}

/// The resting position of a landed body: the planet's centre plus the
/// surface "up" direction, rescaled to exactly the surface radius.
#[verifier::opaque]
pub open spec fn spec_resting_pos(planet_pos: Vec2Fx, planet_angle: int, radius: int) -> (
    int,
    int,
) {
    let dir = spec_surface_dir(planet_angle);
    let off = spec_scale_to_len(Vec2Fx { x: dir.0 as i128, y: dir.1 as i128 }, radius);
    (planet_pos.x + off.0, planet_pos.y + off.1)
}

/// The resting orientation of a landed body: the negated planet
/// orientation, renormalized, so the body stays upright relative to the
/// spinning surface.
pub open spec fn spec_resting_angle(planet_angle: int) -> int {
    (-planet_angle) % (TAU_FX as int)
}

/// Recomputes a landed body's pose from the planet's current state. The
/// returned position sits on the surface circle almost exactly:
/// `lemma_resting_on_surface` bounds the squared distance to the centre.
pub fn planet_resting(planet: &NewtonBody, radius: i128) -> (pose: (Vec2Fx, i128))
    requires
        planet.wf(),
        0 <= radius <= POS_LIMIT_FX,
    ensures
        pose.0.x == spec_resting_pos(planet.pos, planet.angle as int, radius as int).0,
        pose.0.y == spec_resting_pos(planet.pos, planet.angle as int, radius as int).1,
        pose.1 == spec_resting_angle(planet.angle as int),
        0 <= pose.1 < TAU_FX,
        -2 * POS_LIMIT_FX <= pose.0.x <= 2 * POS_LIMIT_FX,
        -2 * POS_LIMIT_FX <= pose.0.y <= 2 * POS_LIMIT_FX,
{
    proof {
        reveal(spec_resting_pos);
    }
    let dir: Vec2Fx = surface_dir(planet.angle);
    let off: Vec2Fx = scale_to_len(dir, radius);
    let pos: Vec2Fx = Vec2Fx { x: planet.pos.x + off.x, y: planet.pos.y + off.y };
    let angle: i128 = mod_euclid(-planet.angle, TAU_FX);
    (pos, angle)
}

/// The take-off rule: a landed body leaves the surface when the outward
/// component of its thrust force, per unit mass, exceeds the gravitational
/// pull at its current distance from the planet's centre. A force with no
/// outward component never lifts off.
#[verifier::opaque]
pub open spec fn spec_takeoff(
    force: Vec2Fx,
    body_pos: Vec2Fx,
    planet_pos: Vec2Fx,
    mass: int,
    gm: int,
) -> bool {
    let fx = crate::fixed::spec_div_trunc(force.x as int, FX_ONE as int);
    let fy = crate::fixed::spec_div_trunc(force.y as int, FX_ONE as int);
    let ux = spec_metres(body_pos.x - planet_pos.x);
    let uy = spec_metres(body_pos.y - planet_pos.y);
    let dsq = ux * ux + uy * uy;
    let d = spec_isqrt(dsq);
    if dsq == 0 {
        false
    } else {
        let dot = fx * ux + fy * uy;
        if dot <= 0 {
            false
        } else {
            let fout = dot / d;
            let aout = (fout * (FX_ONE as int)) / mass;
            let g = gm / dsq;
            aout > g
        }
    }
}

/// Decides take-off for a landed body under the given thrust force.
pub fn takeoff_check(
    force: Vec2Fx,
    body_pos: Vec2Fx,
    planet_pos: Vec2Fx,
    mass: i128,
    gm: i128,
) -> (r: bool)
    requires
        spec_in_field(body_pos),
        spec_in_field(planet_pos),
        0 < mass <= MASS_MAX,
        0 <= gm <= GM_CAP_FX,
        -8 * crate::rocket::AVERSE_TRUST <= force.x <= 8 * crate::rocket::AVERSE_TRUST,
        -8 * crate::rocket::AVERSE_TRUST <= force.y <= 8 * crate::rocket::AVERSE_TRUST,
    ensures
        r == spec_takeoff(force, body_pos, planet_pos, mass as int, gm as int),
{
    proof {
        reveal(spec_takeoff);
        crate::fixed::lemma_div_trunc_ordered(
            force.x as int,
            FX_ONE as int,
            8 * (crate::rocket::AVERSE_TRUST as int),
        );
        crate::fixed::lemma_div_trunc_ordered(
            force.y as int,
            FX_ONE as int,
            8 * (crate::rocket::AVERSE_TRUST as int),
        );
        assert(8 * (crate::rocket::AVERSE_TRUST as int) / (FX_ONE as int)
            == 2747440000000000int);
        lemma_metre_bound_field(body_pos.x - planet_pos.x);
        lemma_metre_bound_field(body_pos.y - planet_pos.y);
    }
    let fx: i128 = div_trunc(force.x, FX_ONE);
    let fy: i128 = div_trunc(force.y, FX_ONE);
    let ux: i128 = div_trunc(body_pos.x - planet_pos.x, FX_ONE);
    let uy: i128 = div_trunc(body_pos.y - planet_pos.y, FX_ONE);
    proof {
        crate::fixed::lemma_mul_bound(ux as int, ux as int, 200000000000000, 200000000000000);
        crate::fixed::lemma_mul_bound(uy as int, uy as int, 200000000000000, 200000000000000);
        assert(ux as int * ux as int >= 0 && uy as int * uy as int >= 0) by (nonlinear_arith);
    }
    let dsq: i128 = ux * ux + uy * uy;
    if dsq == 0 {
        return false;
    }
    let d_wide: u128 = isqrt(dsq as u128);
    let d: i128 = d_wide as i128;
    proof {
        crate::fixed::lemma_mul_bound(fx as int, ux as int, 2747440000000000, 200000000000000);
        crate::fixed::lemma_mul_bound(fy as int, uy as int, 2747440000000000, 200000000000000);
    }
    let dot: i128 = fx * ux + fy * uy;
    if dot <= 0 {
        return false;
    }
    proof {
        assert(d >= 1 && -d <= ux <= d && -d <= uy <= d) by (nonlinear_arith)
            requires
                d as int * d as int <= dsq,
                dsq < (d as int + 1) * (d as int + 1),
                dsq == ux as int * ux as int + uy as int * uy as int,
                dsq >= 1,
                d >= 0,
        ;
        assert(dot as int <= 5494880000000000 * (d as int)) by (nonlinear_arith)
            requires
                dot == fx as int * ux as int + fy as int * uy as int,
                -2747440000000000 <= fx <= 2747440000000000,
                -2747440000000000 <= fy <= 2747440000000000,
                -d <= ux <= d,
                -d <= uy <= d,
                d >= 1,
        ;
        vstd::arithmetic::div_mod::lemma_div_is_ordered(
            dot as int,
            5494880000000000 * (d as int),
            d as int,
        );
        vstd::arithmetic::div_mod::lemma_div_multiples_vanish(5494880000000000, d as int);
        assert(5494880000000000 * (d as int) == (d as int) * 5494880000000000)
            by (nonlinear_arith);
        vstd::arithmetic::div_mod::lemma_div_pos_is_pos(dot as int, d as int);
    }
    let fout: i128 = div_floor(dot, d);
    proof {
        crate::fixed::lemma_mul_bound(fout as int, FX_ONE as int, 5494880000000000, FX_ONE as int);
        lemma_div_magnitude(fout as int * FX_ONE as int, mass as int);
        lemma_div_magnitude(gm as int, dsq as int);
    }
    let aout: i128 = div_floor(fout * FX_ONE, mass);
    let g: i128 = div_floor(gm, dsq);
    aout > g
}

/// LAW (landing idempotence): however often the resting constraint runs and
/// however far the planet has turned, the pose it computes keeps the body
/// on the surface circle: the squared metre-scale distance from the
/// planet's centre differs from the squared radius by at most
/// `4 * radius` below and `radius^2 / 2^30 + 4` above — a relative error of
/// a few parts per billion.
pub proof fn lemma_resting_on_surface(planet: NewtonBody, radius: int)
    requires
        planet.wf(),
        0 <= radius <= POS_LIMIT_FX,
    ensures
        ({
            let p = spec_resting_pos(planet.pos, planet.angle as int, radius);
            let qx = p.0 - planet.pos.x;
            let qy = p.1 - planet.pos.y;
            radius * radius - 4 * radius <= qx * qx + qy * qy <= radius * radius + (radius
                * radius) / 0x40000000 + 4
        }),
{
    reveal(spec_resting_pos);
    let a: int = planet.angle as int;
    let dir: (int, int) = spec_surface_dir(a);
    let s: int = spec_sin_fx(a);
    let c: int = spec_cos_fx(a);
    assert(-FX_ONE <= s <= FX_ONE && -FX_ONE <= c <= FX_ONE) by {
        crate::trig::lemma_sin_cos_range(a);
    }
    let v: Vec2Fx = Vec2Fx { x: dir.0 as i128, y: dir.1 as i128 };
    assert(dir.0 * dir.0 + dir.1 * dir.1 >= 0x4000000000000000) by (nonlinear_arith)
        requires
            dir == (if s * s + c * c < 0x4000000000000000 {
                (0int, FX_ONE as int)
            } else {
                (-s, c)
            }),
            -FX_ONE <= s <= FX_ONE,
            -FX_ONE <= c <= FX_ONE,
            FX_ONE == 4294967296,
    ;
    assert(v.norm_sq() == dir.0 * dir.0 + dir.1 * dir.1);
    crate::vec2::lemma_scale_to_len_norm(v, radius);
    let nsq: int = v.norm_sq();
    crate::fixed::lemma_isqrt_exists(nsq);
    let d: int = spec_isqrt(nsq);
    let q: (int, int) = spec_scale_to_len(v, radius);
    assert(d >= 0x80000000) by (nonlinear_arith)
        requires
            d >= 0,
            nsq < (d + 1) * (d + 1),
            nsq >= 0x4000000000000000,
    ;
    vstd::arithmetic::div_mod::lemma_fundamental_div_mod(radius * radius, 0x40000000);
    vstd::arithmetic::div_mod::lemma_mod_division_less_than_divisor(radius * radius, 0x40000000);
    assert(q.0 * q.0 + q.1 * q.1 <= radius * radius + (radius * radius) / 0x40000000 + 4)
        by (nonlinear_arith)
        requires
            d * (q.0 * q.0 + q.1 * q.1) <= d * (radius * radius) + 2 * (radius * radius) + 2 * d,
            d >= 0x80000000,
            0 <= radius,
            radius * radius == 0x40000000 * ((radius * radius) / 0x40000000) + (radius * radius)
                % 0x40000000,
            0 <= (radius * radius) % 0x40000000 < 0x40000000,
    ;
}

} // verus!
