//! The gravity integrator: pairwise Newtonian acceleration over the whole
//! body store, followed by one semi-implicit Euler step (velocity first,
//! then position with the updated velocity) and the orientation update.
//!
//! The pass is split in two, as the tick discipline demands: every pairwise
//! acceleration is computed from one consistent snapshot of the positions,
//! and only then is any body mutated. Thrust enters here as a per-body
//! external acceleration added into the same accumulation, not as a second
//! integration pass.

use vstd::prelude::*;

verus! {

use crate::fixed::div_floor;
use crate::fixed::div_trunc;
use crate::fixed::isqrt;
use crate::fixed::lemma_div_magnitude;
use crate::fixed::lemma_mul_bound;
use crate::fixed::mul_fx;
use crate::fixed::spec_isqrt;
use crate::fixed::spec_project;
use crate::fixed::FX_ONE;
use crate::newton_body::advance_angle;
use crate::newton_body::lemma_gm_bounds;
use crate::newton_body::spec_advance_angle;
use crate::newton_body::NewtonBody;
use crate::vec2::dist_sq_m;
use crate::vec2::spec_dist_sq_m;
use crate::vec2::spec_in_field;
use crate::vec2::spec_metres;
use crate::vec2::Vec2Fx;
use crate::Dt;
use crate::SimError;
use crate::ACC_LIMIT_FX;
use crate::DT_MAX_FX;
use crate::MAX_BODIES;
use crate::POS_LIMIT_FX;
use crate::VEL_LIMIT_FX;

/// Cap on any well-formed body's gravitational parameter:
/// `spec_gm(MASS_MAX)`, see `lemma_gm_bounds`.
pub const GM_CAP_FX: i128 = 1146636009216308593750000000000;

/// The acceleration a body with gravitational parameter `gm_j` at `pj`
/// exerts on a body at `pi`: magnitude `gm_j / dist^2` along the unit vector
/// toward `pj`, with distances in whole metres. Meaningless when the
/// squared distance is zero; the executable integrator rejects that case.
pub open spec fn spec_pair_accel(pi: Vec2Fx, pj: Vec2Fx, gm_j: int) -> (int, int) {
    let dx = spec_metres(pj.x - pi.x);
    let dy = spec_metres(pj.y - pi.y);
    let dsq = dx * dx + dy * dy;
    let d = spec_isqrt(dsq);
    let g = gm_j / dsq;
    (spec_project(g, dx, d), spec_project(g, dy, d))
}

/// Two positions are degenerate for the force law when they are less than a
/// metre apart: the metre-resolution distance underflows to zero.
pub open spec fn spec_degenerate(pi: Vec2Fx, pj: Vec2Fx) -> bool {
    spec_dist_sq_m(pi, pj) == 0
}

/// LAW (action and reaction): the pairwise acceleration law is
/// antisymmetric. For any non-degenerate pair, swapping the two positions
/// negates both components exactly — the metre-resolution displacement is
/// rounded toward zero, so a mirrored displacement has the mirrored metre
/// part and the same length. With a common gravitational parameter the two
/// directed accelerations are exact negations; scaled by the two masses,
/// the paired forces `m_i * a_ij` and `m_j * a_ji` oppose along the same
/// line, which is what conserves momentum structurally.
pub proof fn lemma_pair_accel_antisymmetric(pi: Vec2Fx, pj: Vec2Fx, gm: int)
    requires
        !spec_degenerate(pi, pj),
    ensures
        spec_pair_accel(pi, pj, gm).0 == -spec_pair_accel(pj, pi, gm).0,
        spec_pair_accel(pi, pj, gm).1 == -spec_pair_accel(pj, pi, gm).1,
        spec_dist_sq_m(pi, pj) == spec_dist_sq_m(pj, pi),
{
    let dx: int = spec_metres(pj.x - pi.x);
    let dy: int = spec_metres(pj.y - pi.y);
    crate::fixed::lemma_div_trunc_neg(pj.x - pi.x, FX_ONE as int);
    crate::fixed::lemma_div_trunc_neg(pj.y - pi.y, FX_ONE as int);
    assert(spec_metres(pi.x - pj.x) == -dx && spec_metres(pi.y - pj.y) == -dy);
    assert((-dx) * (-dx) == dx * dx && (-dy) * (-dy) == dy * dy) by (nonlinear_arith);
    let dsq: int = dx * dx + dy * dy;
    let d: int = crate::fixed::spec_isqrt(dsq);
    crate::fixed::lemma_isqrt_exists(dsq);
    assert(dsq >= 1 && d >= 0);
    assert(d >= 1) by (nonlinear_arith)
        requires
            d * d <= dsq,
            dsq < (d + 1) * (d + 1),
            dsq >= 1,
            d >= 0,
    ;
    let g: int = gm / dsq;
    vstd::arithmetic::div_mod::lemma_div_of0(d);
    assert(g * 0 == 0) by (nonlinear_arith);
    assert(spec_project(g, -dx, d) == -spec_project(g, dx, d));
    assert(spec_project(g, -dy, d) == -spec_project(g, dy, d));
}

/// No two distinct bodies of the store sit at a degenerate separation.
pub open spec fn spec_no_degenerate_pair(bodies: Seq<NewtonBody>) -> bool {
    forall|i: int, j: int|
        0 <= i < bodies.len() && 0 <= j < bodies.len() && i != j ==> !spec_degenerate(
            bodies[i].pos,
            bodies[j].pos,
        )
}

/// Gravitational acceleration on body `i` summed over the bodies before
/// index `k` (body `i` itself excluded).
pub open spec fn spec_accel_sum(bodies: Seq<NewtonBody>, i: int, k: int) -> (int, int)
    decreases k,
{
    if k <= 0 {
        (0, 0)
    } else if k - 1 == i {
        spec_accel_sum(bodies, i, k - 1)
    } else {
        let prev = spec_accel_sum(bodies, i, k - 1);
        let c = spec_pair_accel(bodies[i].pos, bodies[k - 1].pos, bodies[k - 1].gm as int);
        (prev.0 + c.0, prev.1 + c.1)
    }
}

/// Total acceleration on body `i`: the pairwise sum over the whole store
/// plus the externally supplied (thrust) acceleration.
pub open spec fn spec_total_accel(bodies: Seq<NewtonBody>, ext: Seq<Vec2Fx>, i: int) -> (
    int,
    int,
) {
    let s = spec_accel_sum(bodies, i, bodies.len() as int);
    (s.0 + ext[i].x, s.1 + ext[i].y)
}

/// Velocity component after one step: `v + a * dt`.
pub open spec fn spec_vel_step(v: int, a: int, dt: int) -> int {
    v + (a * dt) / (FX_ONE as int)
}

/// Position component after one step, from the already-updated velocity:
/// `p + v' * dt`.
pub open spec fn spec_pos_step(p: int, v_new: int, dt: int) -> int {
    p + (v_new * dt) / (FX_ONE as int)
}

/// Whether one body's step stays inside the simulation envelope: bounded
/// acceleration, bounded new velocity, bounded new position. A violation is
/// the fixed-point analogue of a non-finite float and is fatal to the tick.
pub open spec fn spec_body_step_ok(b: NewtonBody, ax: int, ay: int, dt: int) -> bool {
    let vx = spec_vel_step(b.vel.x as int, ax, dt);
    let vy = spec_vel_step(b.vel.y as int, ay, dt);
    let px = spec_pos_step(b.pos.x as int, vx, dt);
    let py = spec_pos_step(b.pos.y as int, vy, dt);
    &&& -ACC_LIMIT_FX <= ax <= ACC_LIMIT_FX
    &&& -ACC_LIMIT_FX <= ay <= ACC_LIMIT_FX
    &&& -VEL_LIMIT_FX <= vx <= VEL_LIMIT_FX
    &&& -VEL_LIMIT_FX <= vy <= VEL_LIMIT_FX
    &&& -POS_LIMIT_FX <= px <= POS_LIMIT_FX
    &&& -POS_LIMIT_FX <= py <= POS_LIMIT_FX
}

/// The integrator succeeds exactly when no pair is degenerate and every
/// body's step stays inside the envelope.
pub open spec fn spec_integration_ok(bodies: Seq<NewtonBody>, ext: Seq<Vec2Fx>, dt: int) -> bool {
    &&& spec_no_degenerate_pair(bodies)
    &&& forall|i: int|
        0 <= i < bodies.len() ==> spec_body_step_ok(
            bodies[i],
            #[trigger] spec_total_accel(bodies, ext, i).0,
            spec_total_accel(bodies, ext, i).1,
            dt,
        )
}

/// Body `i` after one integrator step under total acceleration `(ax, ay)`:
/// mass, gravitational parameter and angular velocity are untouched; the
/// acceleration is recorded; velocity, position and orientation advance.
pub open spec fn spec_stepped_body(b: NewtonBody, ax: int, ay: int, dt: int) -> NewtonBody {
    let vx = spec_vel_step(b.vel.x as int, ax, dt);
    let vy = spec_vel_step(b.vel.y as int, ay, dt);
    NewtonBody {
        mass: b.mass,
        gm: b.gm,
        acc: Vec2Fx { x: ax as i128, y: ay as i128 },
        vel: Vec2Fx { x: vx as i128, y: vy as i128 },
        angle: spec_advance_angle(b.angle as int, b.angular_vel as int, dt) as i128,
        angular_vel: b.angular_vel,
        pos: Vec2Fx {
            x: spec_pos_step(b.pos.x as int, vx, dt) as i128,
            y: spec_pos_step(b.pos.y as int, vy, dt) as i128,
        },
    }
}

/// One body's kinetic-energy term, scaled by the gravitational constant
/// and coarsened by `2^40`: `G * m * |v|^2 / 2` with `G * m` and the
/// metre-per-second speeds read off at integer resolution.
pub open spec fn spec_ke_term(b: NewtonBody) -> int {
    let g15 = ((b.gm as int) / (FX_ONE as int)) / 0x8000;
    let vxm = crate::fixed::spec_div_trunc(b.vel.x as int, FX_ONE as int);
    let vym = crate::fixed::spec_div_trunc(b.vel.y as int, FX_ONE as int);
    let vsq = vxm * vxm + vym * vym;
    ((g15 * vsq) / 0x8000 / 2) / 0x400
}

/// One pair's potential-energy term, scaled the same way:
/// `G^2 * m_i * m_j / dist`.
pub open spec fn spec_pe_pair(bi: NewtonBody, bj: NewtonBody) -> int {
    let gi = ((bi.gm as int) / (FX_ONE as int)) / 0x8000;
    let gj = ((bj.gm as int) / (FX_ONE as int)) / 0x8000;
    let d = spec_isqrt(spec_dist_sq_m(bi.pos, bj.pos));
    ((gi * gj) / d) / 0x400
}

/// Kinetic energy summed over the first `k` bodies.
pub open spec fn spec_ke_sum(bodies: Seq<NewtonBody>, k: int) -> int
    decreases k,
{
    if k <= 0 {
        0
    } else {
        spec_ke_sum(bodies, k - 1) + spec_ke_term(bodies[k - 1])
    }
}

/// Potential energy of body `i` against bodies `i+1 .. k`.
pub open spec fn spec_pe_row(bodies: Seq<NewtonBody>, i: int, k: int) -> int
    decreases k - i,
{
    if k <= i + 1 {
        0
    } else {
        spec_pe_row(bodies, i, k - 1) + spec_pe_pair(bodies[i], bodies[k - 1])
    }
}

/// Potential energy summed over all unordered pairs among the first `k`
/// row heads.
pub open spec fn spec_pe_sum(bodies: Seq<NewtonBody>, k: int) -> int
    decreases k,
{
    if k <= 0 {
        0
    } else {
        spec_pe_sum(bodies, k - 1) + spec_pe_row(bodies, k - 1, bodies.len() as int)
    }
}

/// Total mechanical energy of the store, scaled by the gravitational
/// constant and coarsened by `2^40`: the kinetic sum minus the pairwise
/// potential sum. A fixed quantity to watch for integrator drift.
pub open spec fn spec_energy(bodies: Seq<NewtonBody>) -> int {
    spec_ke_sum(bodies, bodies.len() as int) - spec_pe_sum(bodies, bodies.len() as int)
}

/// Computes the store's total mechanical energy, exactly as
/// `spec_energy` states it. The store must hold no degenerate pair, so
/// every pairwise distance divides cleanly.
#[verifier::loop_isolation(false)]
pub fn calculate_energy(bodies: &Vec<NewtonBody>) -> (e: i128)
    requires
        bodies@.len() <= MAX_BODIES,
        forall|i: int| 0 <= i < bodies@.len() ==> (#[trigger] bodies@[i]).wf(),
        spec_no_degenerate_pair(bodies@),
    ensures
        e == spec_energy(bodies@),
{
    let n: usize = bodies.len();
    let mut ke: i128 = 0;
    let mut i: usize = 0;
    while i < n
        invariant
            0 <= i <= n,
            ke == spec_ke_sum(bodies@, i as int),
            0 <= ke <= (i as int) * 4073669434547996500000000000000000int,
        decreases n - i,
    {
        let b: NewtonBody = bodies[i];
        proof {
            lemma_gm_bounds(b.mass as int);
            vstd::arithmetic::div_mod::lemma_div_pos_is_pos(b.gm as int, FX_ONE as int);
            vstd::arithmetic::div_mod::lemma_div_is_ordered(
                b.gm as int,
                GM_CAP_FX as int,
                FX_ONE as int,
            );
            assert(GM_CAP_FX as int / (FX_ONE as int) == 266972000062537517806int);
            vstd::arithmetic::div_mod::lemma_div_pos_is_pos(
                (b.gm as int) / (FX_ONE as int),
                0x8000,
            );
            vstd::arithmetic::div_mod::lemma_div_is_ordered(
                (b.gm as int) / (FX_ONE as int),
                266972000062537517806int,
                0x8000,
            );
            assert(266972000062537517806int / 0x8000 == 8147338869095993int);
            crate::fixed::lemma_div_trunc_ordered(
                b.vel.x as int,
                FX_ONE as int,
                crate::VEL_LIMIT_FX as int,
            );
            crate::fixed::lemma_div_trunc_ordered(
                b.vel.y as int,
                FX_ONE as int,
                crate::VEL_LIMIT_FX as int,
            );
            assert(crate::VEL_LIMIT_FX as int / (FX_ONE as int) == 500000000);
        }
        let g15: i128 = div_floor(div_floor(b.gm, FX_ONE), 0x8000);
        let vxm: i128 = div_trunc(b.vel.x, FX_ONE);
        let vym: i128 = div_trunc(b.vel.y, FX_ONE);
        proof {
            lemma_mul_bound(vxm as int, vxm as int, 500000000, 500000000);
            lemma_mul_bound(vym as int, vym as int, 500000000, 500000000);
            assert(vxm as int * vxm as int >= 0 && vym as int * vym as int >= 0)
                by (nonlinear_arith);
            lemma_mul_bound(
                g15 as int,
                (vxm as int * vxm as int + vym as int * vym as int),
                8147338869095993int,
                500000000000000000int,
            );
            vstd::arithmetic::mul::lemma_mul_nonnegative(
                g15 as int,
                (vxm as int * vxm as int + vym as int * vym as int),
            );
            lemma_div_magnitude(
                g15 as int * (vxm as int * vxm as int + vym as int * vym as int),
                0x8000,
            );
            lemma_div_magnitude(
                (g15 as int * (vxm as int * vxm as int + vym as int * vym as int)) / 0x8000,
                2,
            );
            lemma_div_magnitude(
                (g15 as int * (vxm as int * vxm as int + vym as int * vym as int)) / 0x8000 / 2,
                0x400,
            );
        }
        let vsq: i128 = vxm * vxm + vym * vym;
        let term: i128 = div_floor(div_floor(div_floor(g15 * vsq, 0x8000), 2), 0x400);
        ke = ke + term;
        i = i + 1;
    }
    let mut pe: i128 = 0;
    let mut i: usize = 0;
    while i < n
        invariant
            0 <= i <= n,
            pe == spec_pe_sum(bodies@, i as int),
            0 <= pe <= (i as int) * 265516522591529496644452194623488int,
        decreases n - i,
    {
        let bi: NewtonBody = bodies[i];
        let mut row: i128 = 0;
        let mut j: usize = i + 1;
        proof {
            assert(row == spec_pe_row(bodies@, i as int, (i + 1) as int));
        }
        while j < n
            invariant
                i < j <= n || (i + 1 > n && j == i + 1),
                row == spec_pe_row(bodies@, i as int, j as int),
                0 <= row <= (j as int) * 64823369773322631016711961578int,
            decreases n - j,
        {
            let bj: NewtonBody = bodies[j];
            proof {
                lemma_gm_bounds(bi.mass as int);
                lemma_gm_bounds(bj.mass as int);
                vstd::arithmetic::div_mod::lemma_div_pos_is_pos(bi.gm as int, FX_ONE as int);
                vstd::arithmetic::div_mod::lemma_div_pos_is_pos(bj.gm as int, FX_ONE as int);
                vstd::arithmetic::div_mod::lemma_div_is_ordered(
                    bi.gm as int,
                    GM_CAP_FX as int,
                    FX_ONE as int,
                );
                vstd::arithmetic::div_mod::lemma_div_is_ordered(
                    bj.gm as int,
                    GM_CAP_FX as int,
                    FX_ONE as int,
                );
                assert(GM_CAP_FX as int / (FX_ONE as int) == 266972000062537517806int);
                vstd::arithmetic::div_mod::lemma_div_pos_is_pos(
                    (bi.gm as int) / (FX_ONE as int),
                    0x8000,
                );
                vstd::arithmetic::div_mod::lemma_div_pos_is_pos(
                    (bj.gm as int) / (FX_ONE as int),
                    0x8000,
                );
                vstd::arithmetic::div_mod::lemma_div_is_ordered(
                    (bi.gm as int) / (FX_ONE as int),
                    266972000062537517806int,
                    0x8000,
                );
                vstd::arithmetic::div_mod::lemma_div_is_ordered(
                    (bj.gm as int) / (FX_ONE as int),
                    266972000062537517806int,
                    0x8000,
                );
                assert(266972000062537517806int / 0x8000 == 8147338869095993int);
            }
            let gi: i128 = div_floor(div_floor(bi.gm, FX_ONE), 0x8000);
            let gj: i128 = div_floor(div_floor(bj.gm, FX_ONE), 0x8000);
            let dsq: i128 = dist_sq_m(bi.pos, bj.pos);
            proof {
                assert(!spec_degenerate(bodies@[i as int].pos, bodies@[j as int].pos));
            }
            let d_wide: u128 = isqrt(dsq as u128);
            let d: i128 = d_wide as i128;
            proof {
                assert(d >= 1) by (nonlinear_arith)
                    requires
                        d as int * d as int <= dsq,
                        dsq < (d as int + 1) * (d as int + 1),
                        dsq >= 1,
                        d >= 0,
                ;
                lemma_mul_bound(
                    gi as int,
                    gj as int,
                    8147338869095993int,
                    8147338869095993int,
                );
                vstd::arithmetic::mul::lemma_mul_nonnegative(gi as int, gj as int);
                lemma_div_magnitude(gi as int * gj as int, d as int);
                lemma_div_magnitude((gi as int * gj as int) / (d as int), 0x400);
                vstd::arithmetic::div_mod::lemma_div_pos_is_pos(
                    gi as int * gj as int,
                    d as int,
                );
                vstd::arithmetic::div_mod::lemma_div_is_ordered(
                    gi as int * gj as int,
                    66379130647882374161113048656049int,
                    d as int,
                );
                vstd::arithmetic::div_mod::lemma_div_is_ordered(
                    (gi as int * gj as int) / (d as int),
                    66379130647882374161113048656049int,
                    0x400,
                );
                assert(66379130647882374161113048656049int / 0x400
                    == 64823369773322631016711961578int);
                vstd::arithmetic::div_mod::lemma_div_multiples_vanish(
                    66379130647882374161113048656049int,
                    d as int,
                );
                assert(66379130647882374161113048656049int * (d as int) == (d as int)
                    * 66379130647882374161113048656049int) by (nonlinear_arith);
                assert(gi as int * gj as int <= 66379130647882374161113048656049int * (
                d as int)) by (nonlinear_arith)
                    requires
                        0 <= gi as int * gj as int <= 66379130647882374161113048656049int,
                        d >= 1,
                ;
            }
            let pair: i128 = div_floor(div_floor(gi * gj, d), 0x400);
            row = row + pair;
            j = j + 1;
        }
        pe = pe + row;
        i = i + 1;
    }
    ke - pe
}

/// LAW (zero step): a tick of zero elapsed time moves nothing. Under
/// `dt == 0` the integrator step leaves every body's position, velocity
/// and orientation exactly as they were — it records the computed
/// acceleration and does nothing else — so a stalled frame clock can never
/// kick the simulation.
pub proof fn lemma_zero_step_preserves_state(bodies: Seq<NewtonBody>, ext: Seq<Vec2Fx>, i: int)
    requires
        0 <= i < bodies.len(),
        bodies[i].wf(),
    ensures
        ({
            let a = spec_total_accel(bodies, ext, i);
            let s = spec_stepped_body(bodies[i], a.0, a.1, 0);
            s.pos == bodies[i].pos && s.vel == bodies[i].vel && s.angle == bodies[i].angle
                && s.angular_vel == bodies[i].angular_vel && s.mass == bodies[i].mass && s.gm
                == bodies[i].gm
        }),
{
    let a = spec_total_accel(bodies, ext, i);
    let b = bodies[i];
    vstd::arithmetic::div_mod::lemma_div_of0(FX_ONE as int);
    assert(a.0 * 0 == 0 && a.1 * 0 == 0 && (b.vel.x as int) * 0 == 0 && (b.vel.y as int) * 0
        == 0 && (b.angular_vel as int) * 0 == 0) by (nonlinear_arith);
    vstd::arithmetic::div_mod::lemma_small_mod(b.angle as nat, crate::fixed::TAU_FX as nat);
}

/// The acceleration one body exerts on another, as the force law computes
/// it: an error reports a degenerate (sub-metre) separation.
pub fn gravitational_accel(pi: Vec2Fx, pj: Vec2Fx, gm_j: i128) -> (r: Result<
    (i128, i128),
    SimError,
>)
    requires
        spec_in_field(pi),
        spec_in_field(pj),
        0 <= gm_j <= GM_CAP_FX,
    ensures
        r is Err <==> spec_degenerate(pi, pj),
        r matches Err(e) ==> e == SimError::NumericalError,
        r matches Ok(a) ==> a.0 == spec_pair_accel(pi, pj, gm_j as int).0 && a.1
            == spec_pair_accel(pi, pj, gm_j as int).1 && -gm_j <= a.0 <= gm_j && -gm_j <= a.1
            <= gm_j,
{
    let dsq: i128 = dist_sq_m(pi, pj);
    if dsq == 0 {
        return Err(SimError::NumericalError);
    }
    let d_wide: u128 = isqrt(dsq as u128);
    let d: i128 = d_wide as i128;
    let g: i128 = div_floor(gm_j, dsq);
    let dx: i128 = div_trunc(pj.x - pi.x, FX_ONE);
    let dy: i128 = div_trunc(pj.y - pi.y, FX_ONE);
    proof {
        lemma_div_magnitude(gm_j as int, dsq as int);
        vstd::arithmetic::div_mod::lemma_fundamental_div_mod(gm_j as int, dsq as int);
        vstd::arithmetic::div_mod::lemma_mod_division_less_than_divisor(gm_j as int, dsq as int);
        assert(g as int * (dsq as int) <= gm_j as int) by (nonlinear_arith)
            requires
                gm_j as int == (dsq as int) * (g as int) + (gm_j as int) % (dsq as int),
                0 <= (gm_j as int) % (dsq as int),
        ;
        assert(d >= 1 && -d <= dx <= d && -d <= dy <= d) by (nonlinear_arith)
            requires
                d as int * d as int <= dsq,
                dsq < (d as int + 1) * (d as int + 1),
                dsq == dx as int * dx as int + dy as int * dy as int,
                dsq >= 1,
                d >= 0,
        ;
    }
    let dxa: i128 = if dx >= 0 {
        dx
    } else {
        -dx
    };
    let dya: i128 = if dy >= 0 {
        dy
    } else {
        -dy
    };
    proof {
        assert(0 <= g * (dxa as int) <= gm_j && 0 <= g * (dya as int) <= gm_j)
            by (nonlinear_arith)
            requires
                g >= 0,
                d >= 1,
                0 <= dxa <= d,
                0 <= dya <= d,
                g as int * dsq <= gm_j,
                d as int * d as int <= dsq,
        ;
        lemma_div_magnitude(g as int * dxa as int, d as int);
        lemma_div_magnitude(g as int * dya as int, d as int);
    }
    let cx: i128 = div_floor(g * dxa, d);
    let cy: i128 = div_floor(g * dya, d);
    let ax: i128 = if dx >= 0 {
        cx
    } else {
        -cx
    };
    let ay: i128 = if dy >= 0 {
        cy
    } else {
        -cy
    };
    Ok((ax, ay))
}

/// One integrator pass over the whole store. All accelerations are computed
/// from the entry snapshot; each body then takes one semi-implicit Euler
/// step and its orientation advances. `ext` supplies the external (thrust)
/// acceleration per body. On any error the store is left untouched and the
/// tick is lost.
#[verifier::loop_isolation(false)]
pub fn n_body_iter(bodies: &mut Vec<NewtonBody>, ext: &Vec<Vec2Fx>, dt: &Dt) -> (r: Result<
    (),
    SimError,
>)
    requires
        old(bodies).len() <= MAX_BODIES,
        forall|i: int| 0 <= i < old(bodies).len() ==> (#[trigger] old(bodies)[i]).wf(),
        ext.len() == old(bodies).len(),
        forall|i: int|
            0 <= i < ext.len() ==> -ACC_LIMIT_FX <= (#[trigger] ext[i]).x <= ACC_LIMIT_FX
                && -ACC_LIMIT_FX <= ext[i].y <= ACC_LIMIT_FX,
        dt.valid(),
    ensures
        r is Ok <==> spec_integration_ok(old(bodies)@, ext@, dt.0 as int),
        r matches Err(e) ==> e == SimError::NumericalError && final(bodies)@ == old(bodies)@,
        r is Ok ==> final(bodies)@.len() == old(bodies)@.len(),
        r is Ok ==> forall|i: int|
            0 <= i < old(bodies)@.len() ==> (#[trigger] final(bodies)@[i]) == spec_stepped_body(
                old(bodies)@[i],
                spec_total_accel(old(bodies)@, ext@, i).0,
                spec_total_accel(old(bodies)@, ext@, i).1,
                dt.0 as int,
            ) && final(bodies)@[i].wf(),
{
    let n: usize = bodies.len();
    let mut accels: Vec<Vec2Fx> = Vec::new();
    let mut i: usize = 0;
    while i < n
        invariant
            accels.len() == i,
            0 <= i <= n,
            forall|k: int|
                0 <= k < i ==> (#[trigger] accels@[k]).x == spec_total_accel(
                    bodies@,
                    ext@,
                    k,
                ).0 && accels@[k].y == spec_total_accel(bodies@, ext@, k).1,
            forall|k: int|
                0 <= k < i ==> -ACC_LIMIT_FX <= (#[trigger] accels@[k]).x <= ACC_LIMIT_FX
                    && -ACC_LIMIT_FX <= accels@[k].y <= ACC_LIMIT_FX,
            forall|k: int, j: int|
                0 <= k < i && 0 <= j < n && k != j ==> !spec_degenerate(
                    (#[trigger] bodies@[k]).pos,
                    (#[trigger] bodies@[j]).pos,
                ),
        decreases n - i,
    {
        let mut sx: i128 = 0;
        let mut sy: i128 = 0;
        let mut j: usize = 0;
        while j < n
            invariant
                0 <= j <= n,
                sx == spec_accel_sum(bodies@, i as int, j as int).0,
                sy == spec_accel_sum(bodies@, i as int, j as int).1,
                -((j as int) * GM_CAP_FX) <= sx <= (j as int) * GM_CAP_FX,
                -((j as int) * GM_CAP_FX) <= sy <= (j as int) * GM_CAP_FX,
                forall|l: int|
                    0 <= l < j && l != i ==> !spec_degenerate(
                        bodies@[i as int].pos,
                        (#[trigger] bodies@[l]).pos,
                    ),
            decreases n - j,
        {
            if j != i {
                proof {
                    lemma_gm_bounds(bodies@[j as int].mass as int);
                }
                match gravitational_accel(bodies[i].pos, bodies[j].pos, bodies[j].gm) {
                    Ok(c) => {
                        sx = sx + c.0;
                        sy = sy + c.1;
                    },
                    Err(_) => {
                        assert(!spec_no_degenerate_pair(bodies@));
                        return Err(SimError::NumericalError);
                    },
                }
            }
            j = j + 1;
        }
        let ax: i128 = sx + ext[i].x;
        let ay: i128 = sy + ext[i].y;
        if ax < -ACC_LIMIT_FX || ax > ACC_LIMIT_FX || ay < -ACC_LIMIT_FX || ay > ACC_LIMIT_FX {
            assert(!spec_body_step_ok(
                bodies@[i as int],
                spec_total_accel(bodies@, ext@, i as int).0,
                spec_total_accel(bodies@, ext@, i as int).1,
                dt.0 as int,
            ));
            return Err(SimError::NumericalError);
        }
        accels.push(Vec2Fx { x: ax, y: ay });
        i = i + 1;
    }
    let mut out: Vec<NewtonBody> = Vec::new();
    let mut i: usize = 0;
    while i < n
        invariant
            out.len() == i,
            0 <= i <= n,
            accels.len() == n,
            forall|k: int|
                0 <= k < n ==> (#[trigger] accels@[k]).x == spec_total_accel(
                    bodies@,
                    ext@,
                    k,
                ).0 && accels@[k].y == spec_total_accel(bodies@, ext@, k).1,
            forall|k: int|
                0 <= k < n ==> -ACC_LIMIT_FX <= (#[trigger] accels@[k]).x <= ACC_LIMIT_FX
                    && -ACC_LIMIT_FX <= accels@[k].y <= ACC_LIMIT_FX,
            spec_no_degenerate_pair(bodies@),
            forall|k: int|
                0 <= k < i ==> (#[trigger] out@[k]) == spec_stepped_body(
                    bodies@[k],
                    spec_total_accel(bodies@, ext@, k).0,
                    spec_total_accel(bodies@, ext@, k).1,
                    dt.0 as int,
                ) && out@[k].wf(),
            forall|k: int|
                0 <= k < i ==> spec_body_step_ok(
                    bodies@[k],
                    #[trigger] spec_total_accel(bodies@, ext@, k).0,
                    spec_total_accel(bodies@, ext@, k).1,
                    dt.0 as int,
                ),
        decreases n - i,
    {
        let b: NewtonBody = bodies[i];
        let ax: i128 = accels[i].x;
        let ay: i128 = accels[i].y;
        proof {
            lemma_mul_bound(ax as int, dt.0 as int, ACC_LIMIT_FX as int, DT_MAX_FX as int);
            lemma_mul_bound(ay as int, dt.0 as int, ACC_LIMIT_FX as int, DT_MAX_FX as int);
            lemma_div_magnitude(ax as int * dt.0 as int, FX_ONE as int);
            lemma_div_magnitude(ay as int * dt.0 as int, FX_ONE as int);
        }
        let vx: i128 = b.vel.x + mul_fx(ax, dt.0);
        let vy: i128 = b.vel.y + mul_fx(ay, dt.0);
        if vx < -VEL_LIMIT_FX || vx > VEL_LIMIT_FX || vy < -VEL_LIMIT_FX || vy > VEL_LIMIT_FX {
            assert(!spec_body_step_ok(
                bodies@[i as int],
                spec_total_accel(bodies@, ext@, i as int).0,
                spec_total_accel(bodies@, ext@, i as int).1,
                dt.0 as int,
            ));
            return Err(SimError::NumericalError);
        }
        proof {
            lemma_mul_bound(vx as int, dt.0 as int, VEL_LIMIT_FX as int, DT_MAX_FX as int);
            lemma_mul_bound(vy as int, dt.0 as int, VEL_LIMIT_FX as int, DT_MAX_FX as int);
            lemma_div_magnitude(vx as int * dt.0 as int, FX_ONE as int);
            lemma_div_magnitude(vy as int * dt.0 as int, FX_ONE as int);
        }
        let px: i128 = b.pos.x + mul_fx(vx, dt.0);
        let py: i128 = b.pos.y + mul_fx(vy, dt.0);
        if px < -POS_LIMIT_FX || px > POS_LIMIT_FX || py < -POS_LIMIT_FX || py > POS_LIMIT_FX {
            assert(!spec_body_step_ok(
                bodies@[i as int],
                spec_total_accel(bodies@, ext@, i as int).0,
                spec_total_accel(bodies@, ext@, i as int).1,
                dt.0 as int,
            ));
            return Err(SimError::NumericalError);
        }
        let angle: i128 = advance_angle(b.angle, b.angular_vel, dt.0);
        out.push(
            NewtonBody {
                mass: b.mass,
                gm: b.gm,
                acc: Vec2Fx { x: ax, y: ay },
                vel: Vec2Fx { x: vx, y: vy },
                angle,
                angular_vel: b.angular_vel,
                pos: Vec2Fx { x: px, y: py },
            },
        );
        i = i + 1;
    }
    *bodies = out;
    Ok(())
}

} // verus!
