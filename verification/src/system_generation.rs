//! The procedural system generator: one star at the system centre, plus
//! planets placed at increasing orbital radius, each with mass and density
//! drawn from a uniform model and a circular orbital velocity consistent
//! with the star's mass and the planet's distance.
//!
//! Randomness enters only as plain 64-bit draws: `get_system` collects them
//! from the outside generator and hands them to `generate_system`, which is
//! deterministic and fully verified for every possible draw sequence.

use vstd::prelude::*;

verus! {

use crate::celestial_body::CelestialBody;
use crate::celestial_body::CelestialBodyType;
use crate::fixed::div_floor;
use crate::fixed::icbrt;
use crate::fixed::isqrt;
use crate::fixed::mod_euclid;
use crate::fixed::spec_isqrt;
use crate::fixed::FX_ONE;
use crate::fixed::HALF_PI_FX;
use crate::fixed::PI_FX;
use crate::fixed::TAU_FX;
use crate::newton_body::NewtonBody;
use crate::tracker::spec_dir_reduce;
use crate::trig::cos_fx;
use crate::trig::sin_fx;
use crate::vec2::dist_sq_m;
use crate::vec2::scale_to_len;
use crate::vec2::spec_dist_sq_m;
use crate::vec2::spec_metres;
use crate::vec2::spec_scale_to_len;
use crate::vec2::Vec2Fx;
use crate::SimError;
use crate::MASS_MAX;
use crate::POS_LIMIT_FX;

/// The star's mass, in kilograms.
pub const STAR_MASS: i128 = 1988416000000000000000000000000;

/// The star's surface radius (an eighth of the solar radius), fixed point.
pub const STAR_RADIUS_FX: i128 = 86962500 * FX_ONE;

/// Lightest planet the model draws, in kilograms.
pub const PLANET_MASS_MIN: i128 = 330000000000000000000000;

/// Heaviest planet the model draws, in kilograms.
pub const PLANET_MASS_MAX: i128 = 1898600000000000000000000000;

/// Least dense planet material, in kilograms per cubic metre.
pub const PLANET_DENSITY_MIN: i128 = 1330;

/// Densest planet material, in kilograms per cubic metre.
pub const PLANET_DENSITY_MAX: i128 = 5420;

/// A uniform draw from `[lo, hi]`, folding a raw 64-bit value by a
/// Euclidean remainder.
pub open spec fn spec_uniform(raw: u64, lo: int, hi: int) -> int {
    lo + (raw as int) % (hi - lo + 1)
}

/// Executable uniform draw from `[lo, hi]`.
fn uniform(raw: u64, lo: i128, hi: i128) -> (r: i128)
    requires
        0 <= lo <= hi,
        hi < 0x1000000000000000000000000,
    ensures
        r == spec_uniform(raw, lo as int, hi as int),
        lo <= r <= hi,
{
    lo + mod_euclid(raw as i128, hi - lo + 1)
}

/// A planet's surface radius from its mass and density, in fixed-point
/// metres: the cube root of `3 * mass / (4 * pi * density)`.
pub open spec fn spec_calculate_radius(mass: int, density: int) -> int {
    let den = (4 * PI_FX * density) / (FX_ONE as int);
    crate::fixed::spec_icbrt((3 * mass) / den) * (FX_ONE as int)
}

/// Computes a planet's surface radius from its mass and density. The
/// radius is resolved in whole metres, so a sphere lighter than a few
/// times its density (a sub-metre ball) comes out as zero; any mass of at
/// least five times the density yields a strictly positive radius.
pub fn calculate_radius(mass: i128, density: i128) -> (r: i128)
    requires
        0 < mass <= MASS_MAX,
        0 < density <= 100000,
    ensures
        r == spec_calculate_radius(mass as int, density as int),
        0 <= r <= POS_LIMIT_FX,
        mass >= 5 * density ==> r >= FX_ONE,
        (density >= PLANET_DENSITY_MIN && mass <= PLANET_MASS_MAX) ==> r <= 70000000 * FX_ONE,
{
    proof {
        assert(4 * (PI_FX as int) * 1 <= 4 * (PI_FX as int) * (density as int) && 4 * (
        PI_FX as int) * (density as int) <= 4 * (PI_FX as int) * 100000) by (nonlinear_arith)
            requires
                1 <= density <= 100000,
                PI_FX == 13493037704,
        ;
        vstd::arithmetic::div_mod::lemma_div_pos_is_pos(
            4 * (PI_FX as int) * (density as int),
            FX_ONE as int,
        );
        vstd::arithmetic::div_mod::lemma_div_is_ordered(
            4 * (PI_FX as int) * 1,
            4 * (PI_FX as int) * (density as int),
            FX_ONE as int,
        );
        assert(4 * (PI_FX as int) * 1 == 53972150816int);
        assert(53972150816int / (FX_ONE as int) == 12);
        vstd::arithmetic::div_mod::lemma_div_pos_is_pos(
            3 * (mass as int),
            (4 * (PI_FX as int) * (density as int)) / (FX_ONE as int),
        );
        crate::fixed::lemma_div_magnitude(
            3 * (mass as int),
            (4 * (PI_FX as int) * (density as int)) / (FX_ONE as int),
        );
    }
    let den: i128 = div_floor(4 * PI_FX * density, FX_ONE);
    let t: i128 = div_floor(3 * mass, den);
    proof {
        assert(3 * (MASS_MAX as int) < 0x200000000000000000000000000int);
    }
    let rm_wide: u128 = icbrt(t as u128);
    let rm: i128 = rm_wide as i128;
    proof {
        assert(rm as int * (FX_ONE as int) <= 0x800000000int * (FX_ONE as int))
            by (nonlinear_arith)
            requires
                0 <= rm < 0x800000000,
                FX_ONE == 4294967296,
        ;
        if mass >= 5 * density {
            assert(4 * (PI_FX as int) * (density as int) <= (FX_ONE as int) * (13
                * density as int)) by (nonlinear_arith)
                requires
                    PI_FX == 13493037704,
                    FX_ONE == 4294967296,
                    density >= 1,
            ;
            vstd::arithmetic::div_mod::lemma_div_is_ordered(
                4 * (PI_FX as int) * (density as int),
                (FX_ONE as int) * (13 * density as int),
                FX_ONE as int,
            );
            vstd::arithmetic::div_mod::lemma_div_multiples_vanish(
                13 * density as int,
                FX_ONE as int,
            );
            assert(3 * (mass as int) >= den as int) by (nonlinear_arith)
                requires
                    mass >= 5 * density,
                    den as int <= 13 * density as int,
                    density >= 1,
            ;
            vstd::arithmetic::div_mod::lemma_div_non_zero(3 * (mass as int), den as int);
            assert(rm >= 1) by (nonlinear_arith)
                requires
                    t < (rm as int + 1) * (rm as int + 1) * (rm as int + 1),
                    t >= 1,
                    rm >= 0,
            ;
            assert(rm as int * (FX_ONE as int) >= FX_ONE as int) by (nonlinear_arith)
                requires
                    rm >= 1,
                    FX_ONE == 4294967296,
            ;
        }
        if density >= PLANET_DENSITY_MIN && mass <= PLANET_MASS_MAX {
            assert(4 * (PI_FX as int) * 1330 <= 4 * (PI_FX as int) * (density as int))
                by (nonlinear_arith)
                requires
                    density >= 1330,
                    PI_FX == 13493037704,
            ;
            vstd::arithmetic::div_mod::lemma_div_is_ordered(
                4 * (PI_FX as int) * 1330,
                4 * (PI_FX as int) * (density as int),
                FX_ONE as int,
            );
            assert(4 * (PI_FX as int) * 1330 == 71782960585280int);
            assert(71782960585280int / (FX_ONE as int) == 16713);
            vstd::arithmetic::div_mod::lemma_div_is_ordered(
                3 * (mass as int),
                3 * (PLANET_MASS_MAX as int),
                den as int,
            );
            vstd::arithmetic::div_mod::lemma_div_is_ordered_by_denominator(
                3 * (PLANET_MASS_MAX as int),
                16713,
                den as int,
            );
            assert(3 * (PLANET_MASS_MAX as int) / 16713 == 340800574403159217375695int);
            assert(rm <= 70000000) by (nonlinear_arith)
                requires
                    rm as int * (rm as int) * (rm as int) <= t,
                    t <= 340800574403159217375695int,
                    rm >= 0,
            ;
            assert(rm as int * (FX_ONE as int) <= 70000000int * (FX_ONE as int))
                by (nonlinear_arith)
                requires
                    0 <= rm <= 70000000,
                    FX_ONE == 4294967296,
            ;
        }
    }
    rm * FX_ONE
}

/// The circular orbital velocity a planet at `pos` needs around a star of
/// gravitational parameter `star_gm` at `center`: magnitude
/// `sqrt(G * M / r)` along the perpendicular of the radius vector.
pub open spec fn spec_planet_velocity(pos: Vec2Fx, center: Vec2Fx, star_gm: int) -> (int, int) {
    let d_m = spec_isqrt(spec_dist_sq_m(center, pos));
    let speed_m = spec_isqrt((star_gm / (FX_ONE as int)) / d_m);
    let relx_m = spec_metres(pos.x - center.x);
    let rely_m = spec_metres(pos.y - center.y);
    let p = spec_dir_reduce(-rely_m, relx_m);
    spec_scale_to_len(Vec2Fx { x: p.0 as i128, y: p.1 as i128 }, speed_m * (FX_ONE as int))
}

/// What the generator guarantees of every planet it emits, whatever the
/// draws were: a well-formed planet tag and body, resting acceleration, a
/// canonical initial orientation, and a velocity that is exactly the
/// circular orbital velocity for its own position.
pub open spec fn spec_planet_pair_ok(
    pair: (CelestialBody, NewtonBody),
    center: Vec2Fx,
    star_gm: int,
) -> bool {
    &&& pair.0.b_type == CelestialBodyType::Planet
    &&& pair.0.wf()
    &&& pair.1.wf()
    &&& pair.1.acc.x == 0 && pair.1.acc.y == 0
    &&& pair.1.angle == HALF_PI_FX
    &&& spec_isqrt(spec_dist_sq_m(center, pair.1.pos)) >= 1
    &&& pair.1.vel.x == spec_planet_velocity(pair.1.pos, center, star_gm).0
    &&& pair.1.vel.y == spec_planet_velocity(pair.1.pos, center, star_gm).1
}

/// A body's distance from the system centre, in whole metres.
pub open spec fn spec_centre_dist(center: Vec2Fx, pos: Vec2Fx) -> int {
    spec_isqrt(spec_dist_sq_m(center, pos))
}

/// Whether a candidate position keeps a full metre of separation from
/// every body already in the system.
fn clear_of_all(system: &Vec<(CelestialBody, NewtonBody)>, pos: Vec2Fx) -> (r: bool)
    requires
        forall|k: int|
            0 <= k < system@.len() ==> crate::vec2::spec_in_field(
                (#[trigger] system@[k]).1.pos,
            ),
        crate::vec2::spec_in_field(pos),
    ensures
        r <==> forall|k: int|
            0 <= k < system@.len() ==> !crate::gravity::spec_degenerate(
                (#[trigger] system@[k]).1.pos,
                pos,
            ),
{
    let n: usize = system.len();
    let mut k: usize = 0;
    while k < n
        invariant
            0 <= k <= n,
            n == system@.len(),
            forall|j: int|
                0 <= j < n ==> crate::vec2::spec_in_field((#[trigger] system@[j]).1.pos),
            crate::vec2::spec_in_field(pos),
            forall|j: int|
                0 <= j < k ==> !crate::gravity::spec_degenerate(
                    (#[trigger] system@[j]).1.pos,
                    pos,
                ),
        decreases n - k,
    {
        if dist_sq_m(system[k].1.pos, pos) == 0 {
            return false;
        }
        k = k + 1;
    }
    true
}

/// Builds the system from a fixed sequence of draws: one star at the
/// centre, then planets at increasing radius while the cursor stays within
/// the populated band and draws remain (four draws per planet: spacing,
/// mass, density, placement angle). Candidates whose derived state would
/// leave the simulation envelope, sit within a metre of an existing body,
/// or fail to move strictly outward are skipped rather than clamped, so
/// every emitted planet satisfies `spec_planet_pair_ok` exactly, the
/// planets sit at strictly increasing centre distance, and no two bodies
/// of the result are ever a degenerate pair for the integrator. On a field
/// of at least two thousand million metres the first candidate provably
/// passes every filter, so given at least four draws the result holds at
/// least one planet.
pub fn generate_system(system_radius: i128, draws: &Vec<u64>) -> (r: Result<
    Vec<(CelestialBody, NewtonBody)>,
    SimError,
>)
    ensures
        r is Ok <==> 0 < system_radius <= POS_LIMIT_FX / 2,
        r matches Err(e) ==> e == SimError::ConfigurationError,
        r matches Ok(v) ==> {
            &&& v@.len() >= 1
            &&& v@[0].0 == (CelestialBody {
                b_type: CelestialBodyType::Star,
                radius: STAR_RADIUS_FX,
            })
            &&& v@[0].1.mass == STAR_MASS
            &&& v@[0].1.pos == (Vec2Fx { x: system_radius, y: system_radius })
            &&& v@[0].1.vel.x == 0 && v@[0].1.vel.y == 0
            &&& v@[0].1.acc.x == 0 && v@[0].1.acc.y == 0
            &&& v@[0].1.wf()
            &&& v@.len() <= 1 + draws@.len() / 4
            &&& forall|k: int|
                1 <= k < v@.len() ==> spec_planet_pair_ok(
                    #[trigger] v@[k],
                    v@[0].1.pos,
                    v@[0].1.gm as int,
                )
            &&& forall|j: int, k: int|
                0 <= j < k < v@.len() ==> !crate::gravity::spec_degenerate(
                    (#[trigger] v@[j]).1.pos,
                    (#[trigger] v@[k]).1.pos,
                )
            &&& forall|j: int, k: int|
                1 <= j < k < v@.len() ==> spec_centre_dist(v@[0].1.pos, (#[trigger] v@[j]).1.pos)
                    < spec_centre_dist(v@[0].1.pos, (#[trigger] v@[k]).1.pos)
            &&& (system_radius >= 8000000000000000000 && draws@.len() >= 4 ==> v@.len() >= 2)
        },
{
    if system_radius <= 0 || system_radius > POS_LIMIT_FX / 2 {
        return Err(SimError::ConfigurationError);
    }
    let center: Vec2Fx = Vec2Fx { x: system_radius, y: system_radius };
    let star_body: NewtonBody = match NewtonBody::new(
        STAR_MASS,
        center,
        Vec2Fx { x: 0, y: 0 },
        HALF_PI_FX,
        FX_ONE,
    ) {
        Ok(b) => b,
        Err(_) => {
            proof {
                assert(false);
            }
            return Err(SimError::ConfigurationError);
        },
    };
    let star_gm: i128 = star_body.gm;
    let mut system: Vec<(CelestialBody, NewtonBody)> = Vec::new();
    system.push(
        (CelestialBody { b_type: CelestialBodyType::Star, radius: STAR_RADIUS_FX }, star_body),
    );
    proof {
        vstd::arithmetic::div_mod::lemma_div_pos_is_pos(system_radius as int, 25);
        vstd::arithmetic::div_mod::lemma_div_pos_is_pos(system_radius as int, 10);
    }
    let limit: i128 = system_radius - (div_floor(system_radius, 25) + div_floor(
        system_radius,
        10,
    ));
    let mut cursor: i128 = STAR_RADIUS_FX;
    let mut last_d: i128 = 0;
    let mut done: bool = false;
    let mut di: usize = 0;
    let n_draws: usize = draws.len();
    while !done && n_draws >= 4 && di <= n_draws - 4 && cursor <= limit
        invariant
            0 < system_radius <= POS_LIMIT_FX / 2,
            center == (Vec2Fx { x: system_radius, y: system_radius }),
            star_gm == star_body.gm,
            star_body.wf(),
            star_body.mass == STAR_MASS,
            n_draws == draws@.len(),
            0 <= di <= n_draws,
            di % 4 == 0,
            cursor >= 0,
            limit <= system_radius,
            limit == system_radius - (system_radius as int / 25 + system_radius as int / 10),
            system@.len() >= 1,
            system@.len() <= 1 + di / 4,
            system@[0].0 == (CelestialBody {
                b_type: CelestialBodyType::Star,
                radius: STAR_RADIUS_FX,
            }),
            system@[0].1 == star_body,
            system@[0].1.mass == STAR_MASS && system@[0].1.pos == center && system@[0].1.vel.x
                == 0 && system@[0].1.vel.y == 0 && system@[0].1.acc.x == 0 && system@[0].1.acc.y
                == 0,
            forall|k: int|
                1 <= k < system@.len() ==> spec_planet_pair_ok(
                    #[trigger] system@[k],
                    center,
                    star_gm as int,
                ),
            forall|j: int, k: int|
                0 <= j < k < system@.len() ==> !crate::gravity::spec_degenerate(
                    (#[trigger] system@[j]).1.pos,
                    (#[trigger] system@[k]).1.pos,
                ),
            forall|j: int, k: int|
                1 <= j < k < system@.len() ==> spec_centre_dist(
                    center,
                    (#[trigger] system@[j]).1.pos,
                ) < spec_centre_dist(center, (#[trigger] system@[k]).1.pos),
            last_d >= 0,
            system@.len() == 1 ==> last_d == 0,
            system@.len() >= 2 ==> last_d == spec_centre_dist(
                center,
                system@[system@.len() - 1].1.pos,
            ),
            (system_radius >= 8000000000000000000 && n_draws >= 4) ==> ((di >= 4
                && system@.len() >= 2) || (di == 0 && cursor == STAR_RADIUS_FX
                && system@.len() == 1)),
            (system_radius >= 8000000000000000000 && n_draws >= 4 && done) ==> system@.len()
                >= 2,
        decreases n_draws - di,
    {
        let ghost first: bool = di == 0;
        let ghost wide: bool = system_radius >= 8000000000000000000;
        let interval: i128 = uniform(
            draws[di],
            div_floor(system_radius, 20),
            div_floor(system_radius, 10),
        );
        let mass: i128 = uniform(draws[di + 1], PLANET_MASS_MIN, PLANET_MASS_MAX);
        let density: i128 = uniform(draws[di + 2], PLANET_DENSITY_MIN, PLANET_DENSITY_MAX);
        let angle: i128 = uniform(draws[di + 3], 0, TAU_FX - 1);
        di = di + 4;
        cursor = cursor + interval;
        proof {
            if wide && first {
                vstd::arithmetic::div_mod::lemma_fundamental_div_mod(system_radius as int, 10);
                vstd::arithmetic::div_mod::lemma_fundamental_div_mod(system_radius as int, 25);
                assert(STAR_RADIUS_FX + interval <= limit) by (nonlinear_arith)
                    requires
                        system_radius as int == 10 * (system_radius as int / 10) + (
                        system_radius as int) % 10,
                        0 <= (system_radius as int) % 10 < 10,
                        system_radius as int == 25 * (system_radius as int / 25) + (
                        system_radius as int) % 25,
                        0 <= (system_radius as int) % 25 < 25,
                        system_radius >= 8000000000000000000,
                        interval <= system_radius as int / 10,
                        limit == system_radius - (system_radius as int / 25
                            + system_radius as int / 10),
                        STAR_RADIUS_FX == 86962500 * 4294967296,
                ;
            }
        }
        if cursor > limit {
            done = true;
            continue ;
        }
        let p_r: i128 = calculate_radius(mass, density);
        proof {
            if wide && first {
                vstd::arithmetic::div_mod::lemma_fundamental_div_mod(system_radius as int, 25);
                assert(cursor + p_r <= system_radius) by (nonlinear_arith)
                    requires
                        cursor <= limit,
                        limit == system_radius - (system_radius as int / 25
                            + system_radius as int / 10),
                        system_radius as int == 25 * (system_radius as int / 25) + (
                        system_radius as int) % 25,
                        0 <= (system_radius as int) % 25 < 25,
                        system_radius as int / 10 >= 0,
                        system_radius >= 8000000000000000000,
                        p_r <= 70000000 * 4294967296,
                ;
            }
        }
        cursor = cursor + p_r;
        if cursor > system_radius {
            done = true;
            continue ;
        }
        let c: i128 = cos_fx(angle);
        let s: i128 = sin_fx(angle);
        let dir: Vec2Fx = if c == 0 && s == 0 {
            Vec2Fx { x: 0, y: FX_ONE }
        } else {
            Vec2Fx { x: c, y: s }
        };
        proof {
            assert(dir.x as int * dir.x as int + dir.y as int * dir.y as int >= 1)
                by (nonlinear_arith)
                requires
                    !(dir.x == 0 && dir.y == 0),
            ;
        }
        let offset: Vec2Fx = scale_to_len(dir, cursor);
        let pos: Vec2Fx = Vec2Fx { x: center.x + offset.x, y: center.y + offset.y };
        let d_sq: i128 = dist_sq_m(center, pos);
        proof {
            if wide && first {
                crate::vec2::lemma_scale_to_len_norm(dir, cursor as int);
                assert(offset.x as int * offset.x as int + offset.y as int * offset.y as int
                    >= 139392000000000000000000000000000000int) by (nonlinear_arith)
                    requires
                        offset.x as int * offset.x as int + offset.y as int * offset.y as int
                            >= cursor as int * cursor as int - 4 * cursor as int,
                        cursor >= 373501093478400000,
                ;
                assert(offset.x >= 264000000000000000 || offset.x <= -264000000000000000
                    || offset.y >= 264000000000000000 || offset.y <= -264000000000000000)
                    by (nonlinear_arith)
                    requires
                        offset.x as int * offset.x as int + offset.y as int * offset.y as int
                            >= 139392000000000000000000000000000000int,
                ;
                crate::fixed::lemma_div_trunc_lower(
                    offset.x as int,
                    FX_ONE as int,
                    264000000000000000,
                );
                crate::fixed::lemma_div_trunc_lower(
                    offset.y as int,
                    FX_ONE as int,
                    264000000000000000,
                );
                assert(264000000000000000int / (FX_ONE as int) == 61467289);
                assert(pos.x - center.x == offset.x && pos.y - center.y == offset.y);
                let tmx: int = crate::vec2::spec_metres(offset.x as int);
                let tmy: int = crate::vec2::spec_metres(offset.y as int);
                assert(tmx >= 61467289 || tmx <= -61467289 || tmy >= 61467289 || tmy
                    <= -61467289);
                assert(d_sq >= 3778227617009521) by (nonlinear_arith)
                    requires
                        d_sq == tmx * tmx + tmy * tmy,
                        tmx >= 61467289 || tmx <= -61467289 || tmy >= 61467289 || tmy
                            <= -61467289,
                ;
            }
        }
        if d_sq == 0 {
            cursor = cursor + p_r;
            continue ;
        }
        let d_wide: u128 = isqrt(d_sq as u128);
        let d_m: i128 = d_wide as i128;
        proof {
            assert(d_m >= 1) by (nonlinear_arith)
                requires
                    d_m as int * d_m as int <= d_sq,
                    d_sq < (d_m as int + 1) * (d_m as int + 1),
                    d_sq >= 1,
                    d_m >= 0,
            ;
            crate::newton_body::lemma_gm_bounds(STAR_MASS as int);
            vstd::arithmetic::div_mod::lemma_div_pos_is_pos(star_gm as int, FX_ONE as int);
            crate::fixed::lemma_div_magnitude(star_gm as int, FX_ONE as int);
            vstd::arithmetic::div_mod::lemma_div_pos_is_pos(
                (star_gm as int) / (FX_ONE as int),
                d_m as int,
            );
            crate::fixed::lemma_div_magnitude((star_gm as int) / (FX_ONE as int), d_m as int);
            if wide && first {
                assert(d_m >= 61467289) by (nonlinear_arith)
                    requires
                        d_sq < (d_m as int + 1) * (d_m as int + 1),
                        d_sq >= 3778227617009521,
                        d_m >= 0,
                ;
                vstd::arithmetic::div_mod::lemma_div_is_ordered(
                    star_gm as int,
                    crate::gravity::GM_CAP_FX as int,
                    FX_ONE as int,
                );
                assert(crate::gravity::GM_CAP_FX as int / (FX_ONE as int)
                    == 266972000062537517806int);
                vstd::arithmetic::div_mod::lemma_div_is_ordered(
                    (star_gm as int) / (FX_ONE as int),
                    266972000062537517806int,
                    d_m as int,
                );
                vstd::arithmetic::div_mod::lemma_div_is_ordered_by_denominator(
                    266972000062537517806int,
                    61467289,
                    d_m as int,
                );
                assert(266972000062537517806int / 61467289 == 4343318282062int);
            }
        }
        let speed_m_wide: u128 = isqrt(div_floor(div_floor(star_gm, FX_ONE), d_m) as u128);
        let speed_m: i128 = speed_m_wide as i128;
        proof {
            if wide && first {
                assert(speed_m <= 500000000) by (nonlinear_arith)
                    requires
                        speed_m as int * (speed_m as int) <= 4343318282062int,
                        speed_m >= 0,
                ;
            }
        }
        if speed_m > 500000000 {
            cursor = cursor + p_r;
            continue ;
        }
        proof {
            crate::vec2::lemma_metre_bound_field(pos.x - center.x);
            crate::vec2::lemma_metre_bound_field(pos.y - center.y);
        }
        let relx_m: i128 = crate::fixed::div_trunc(pos.x - center.x, FX_ONE);
        let rely_m: i128 = crate::fixed::div_trunc(pos.y - center.y, FX_ONE);
        let px: i128 = -rely_m;
        let py: i128 = relx_m;
        let (vx, vy): (i128, i128) = if -0x200000000 <= px && px <= 0x200000000 && -0x200000000
            <= py && py <= 0x200000000 {
            (px, py)
        } else {
            proof {
                crate::vec2::lemma_reduced_in_envelope(px as int, py as int);
                if wide && first {
                    crate::fixed::lemma_div_trunc_lower(px as int, 0x8000, 61467289);
                    crate::fixed::lemma_div_trunc_lower(py as int, 0x8000, 61467289);
                    assert(61467289int / 0x8000 == 1875);
                }
            }
            (crate::fixed::div_trunc(px, 0x8000), crate::fixed::div_trunc(py, 0x8000))
        };
        if vx == 0 && vy == 0 {
            cursor = cursor + p_r;
            continue ;
        }
        proof {
            assert(vx as int * vx as int + vy as int * vy as int >= 1) by (nonlinear_arith)
                requires
                    !(vx == 0 && vy == 0),
            ;
            assert(speed_m as int * (FX_ONE as int) <= 500000000int * (FX_ONE as int))
                by (nonlinear_arith)
                requires
                    0 <= speed_m <= 500000000,
                    FX_ONE == 4294967296,
            ;
        }
        let vel: Vec2Fx = scale_to_len(Vec2Fx { x: vx, y: vy }, speed_m * FX_ONE);
        if d_m <= last_d {
            cursor = cursor + p_r;
            continue ;
        }
        proof {
            assert forall|k: int| 0 <= k < system@.len() implies crate::vec2::spec_in_field(
                (#[trigger] system@[k]).1.pos,
            ) by {
                if k >= 1 {
                    assert(spec_planet_pair_ok(system@[k], center, star_gm as int));
                }
            }
        }
        if !clear_of_all(&system, pos) {
            proof {
                if wide && first {
                    assert(!crate::gravity::spec_degenerate(system@[0].1.pos, pos));
                    assert(forall|k: int|
                        0 <= k < system@.len() ==> !crate::gravity::spec_degenerate(
                            (#[trigger] system@[k]).1.pos,
                            pos,
                        ));
                    assert(false);
                }
            }
            cursor = cursor + p_r;
            continue ;
        }
        match NewtonBody::new(mass, pos, vel, HALF_PI_FX, angle) {
            Ok(body) => {
                system.push(
                    (CelestialBody { b_type: CelestialBodyType::Planet, radius: p_r }, body),
                );
                last_d = d_m;
            },
            Err(_) => {
                proof {
                    if wide && first {
                        assert(speed_m as int * (FX_ONE as int) <= crate::VEL_LIMIT_FX as int);
                        assert(-crate::POS_LIMIT_FX <= pos.x <= crate::POS_LIMIT_FX
                            && -crate::POS_LIMIT_FX <= pos.y <= crate::POS_LIMIT_FX);
                        assert(false);
                    }
                }
            },
        }
        cursor = cursor + p_r;
    }
    proof {
        if system_radius >= 8000000000000000000 && draws@.len() >= 4 && system@.len() < 2 {
            assert(di == 0 && cursor == STAR_RADIUS_FX);
            assert(!done);
            vstd::arithmetic::div_mod::lemma_fundamental_div_mod(system_radius as int, 10);
            vstd::arithmetic::div_mod::lemma_fundamental_div_mod(system_radius as int, 25);
            assert(STAR_RADIUS_FX <= limit) by (nonlinear_arith)
                requires
                    system_radius as int == 10 * (system_radius as int / 10) + (
                    system_radius as int) % 10,
                    0 <= (system_radius as int) % 10 < 10,
                    system_radius as int == 25 * (system_radius as int / 25) + (
                    system_radius as int) % 25,
                    0 <= (system_radius as int) % 25 < 25,
                    system_radius >= 8000000000000000000,
                    limit == system_radius - (system_radius as int / 25
                        + system_radius as int / 10),
                    STAR_RADIUS_FX == 86962500 * 4294967296,
            ;
            assert(false);
        }
    }
    Ok(system)
}

/// Relies on `rand::random`: one independent draw of a 64-bit value from
/// the thread-local generator. Nothing is assumed of the value.
#[verifier::external_body]
fn random_u64() -> u64 {
    rand::random::<u64>()
}

/// Builds a fresh system from outside randomness: collects a batch of
/// draws and hands them to the deterministic generator, so everything the
/// generator guarantees holds whatever the draws came back as.
pub fn get_system(system_radius: i128) -> (r: Result<Vec<(CelestialBody, NewtonBody)>, SimError>)
    ensures
        r is Ok <==> 0 < system_radius <= POS_LIMIT_FX / 2,
        r matches Err(e) ==> e == SimError::ConfigurationError,
        r matches Ok(v) ==> {
            &&& 1 <= v@.len() <= 33
            &&& v@[0].0 == (CelestialBody {
                b_type: CelestialBodyType::Star,
                radius: STAR_RADIUS_FX,
            })
            &&& v@[0].1.mass == STAR_MASS
            &&& v@[0].1.pos == (Vec2Fx { x: system_radius, y: system_radius })
            &&& v@[0].1.vel.x == 0 && v@[0].1.vel.y == 0
            &&& v@[0].1.acc.x == 0 && v@[0].1.acc.y == 0
            &&& v@[0].1.wf()
            &&& forall|k: int|
                1 <= k < v@.len() ==> spec_planet_pair_ok(
                    #[trigger] v@[k],
                    v@[0].1.pos,
                    v@[0].1.gm as int,
                )
            &&& forall|j: int, k: int|
                0 <= j < k < v@.len() ==> !crate::gravity::spec_degenerate(
                    (#[trigger] v@[j]).1.pos,
                    (#[trigger] v@[k]).1.pos,
                )
            &&& forall|j: int, k: int|
                1 <= j < k < v@.len() ==> spec_centre_dist(v@[0].1.pos, (#[trigger] v@[j]).1.pos)
                    < spec_centre_dist(v@[0].1.pos, (#[trigger] v@[k]).1.pos)
            &&& (system_radius >= 8000000000000000000 ==> v@.len() >= 2)
        },
{
    let mut draws: Vec<u64> = Vec::new();
    let mut i: usize = 0;
    while i < 128
        invariant
            draws.len() == i,
            0 <= i <= 128,
        decreases 128 - i,
    {
        draws.push(random_u64());
        i = i + 1;
    }
    generate_system(system_radius, &draws)
}

} // verus!
