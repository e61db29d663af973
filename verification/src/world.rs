//! The body store and the fixed-phase simulation tick.
//!
//! One entry per entity: the kinematic core, plus optional capability tags
//! (celestial surface, rocket, closest-body link, landing relation), the
//! tagged-composition design the simulation is built around. The store is
//! exclusively owned by the tick for its whole duration; rendering and
//! input run strictly before or after.

use vstd::prelude::*;

verus! {

use crate::celestial_body::CelestialBody;
use crate::fixed::div_floor;
use crate::gravity::spec_integration_ok;
use crate::gravity::spec_stepped_body;
use crate::gravity::spec_total_accel;
use crate::landing::spec_resting_angle;
use crate::landing::spec_resting_pos;
use crate::landing::spec_takeoff;
use crate::landing::spec_touching;
use crate::tracker::spec_best;
use crate::tracker::spec_surface_point_local;
use crate::landing::LandingRelation;
use crate::newton_body::NewtonBody;
use crate::rocket::spec_ang_vel_after;
use crate::rocket::spec_rocket_after;
use crate::rocket::spec_world_force;
use crate::rocket::update_positions;
use crate::rocket::PlayerInput;
use crate::rocket::Rocket;
use crate::rocket::AVERSE_TRUST;
use crate::tracker::ClosestCelestialBody;
use crate::vec2::Vec2Fx;
use crate::Dt;
use crate::SimError;
use crate::ACC_LIMIT_FX;
use crate::MAX_BODIES;

/// One entity of the store: a massive body and its optional tags.
#[derive(Clone, Copy, Debug, PartialEq, Eq, Structural)]
pub struct Entry {
    pub n_body: NewtonBody,
    pub celestial: Option<CelestialBody>,
    pub rocket: Option<Rocket>,
    pub ccb: Option<ClosestCelestialBody>,
    pub landing: Option<LandingRelation>,
}

/// One entry's own well-formedness, with `n` the store's length: every tag
/// is well-formed and every cross-reference points at a celestial entry.
pub open spec fn spec_entry_wf(e: Entry, n: int) -> bool {
    &&& e.n_body.wf()
    &&& e.celestial matches Some(c) ==> c.wf()
    &&& e.rocket matches Some(r) ==> r.wf()
    &&& e.ccb matches Some(c) ==> 0 <= c.id < n
    &&& e.landing matches Some(l) ==> 0 <= l.planet_id < n
}

/// Whether every cross-reference of `e` lands on an entry that carries a
/// celestial tag.
pub open spec fn spec_entry_refs_celestial(e: Entry, entries: Seq<Entry>) -> bool {
    &&& e.ccb matches Some(c) ==> entries[c.id as int].celestial is Some
    &&& e.landing matches Some(l) ==> entries[l.planet_id as int].celestial is Some
}

/// An entry after the thrust phase: a rocket entry gets its engines set
/// from the intent snapshot and its angular velocity adjusted; every other
/// entry is untouched.
pub open spec fn spec_entry_thrust(e: Entry, input: Seq<PlayerInput>, dt: int) -> Entry {
    match e.rocket {
        Some(rk) => Entry {
            n_body: NewtonBody {
                mass: e.n_body.mass,
                gm: e.n_body.gm,
                acc: e.n_body.acc,
                vel: e.n_body.vel,
                angle: e.n_body.angle,
                angular_vel: spec_ang_vel_after(e.n_body.angular_vel as int, input, dt) as i128,
                pos: e.n_body.pos,
            },
            celestial: e.celestial,
            rocket: Some(spec_rocket_after(rk, input, dt)),
            ccb: e.ccb,
            landing: e.landing,
        },
        None => e,
    }
}

/// The world-frame thrust force an entry contributes this tick: the net
/// thrust of its engines after the intent snapshot, rotated by its current
/// orientation; zero for entries without a rocket.
pub open spec fn spec_entry_force(e: Entry, input: Seq<PlayerInput>, dt: int) -> (int, int) {
    match e.rocket {
        Some(rk) => {
            let rk2 = spec_rocket_after(rk, input, dt);
            spec_world_force(
                rk2.spec_rocket_trust().0,
                rk2.spec_rocket_trust().1,
                e.n_body.angle as int,
            )
        },
        None => (0int, 0int),
    }
}

/// The external acceleration an entry hands the integrator: its thrust
/// force divided by its mass.
pub open spec fn spec_entry_ext(e: Entry, input: Seq<PlayerInput>, dt: int) -> (int, int) {
    let f = spec_entry_force(e, input, dt);
    (f.0 / (e.n_body.mass as int), f.1 / (e.n_body.mass as int))
}

/// The thrust phase stays inside the envelope: every entry's external
/// acceleration is within the acceleration cap.
pub open spec fn spec_thrust_ok(entries: Seq<Entry>, input: Seq<PlayerInput>, dt: int) -> bool {
    forall|i: int|
        0 <= i < entries.len() ==> {
            let a = #[trigger] spec_entry_ext(entries[i], input, dt);
            -ACC_LIMIT_FX <= a.0 <= ACC_LIMIT_FX && -ACC_LIMIT_FX <= a.1 <= ACC_LIMIT_FX
        }
}

/// The store after the thrust phase.
pub open spec fn spec_stage1_of(entries: Seq<Entry>, input: Seq<PlayerInput>, dt: int) -> Seq<
    Entry,
> {
    Seq::new(entries.len(), |i: int| spec_entry_thrust(entries[i], input, dt))
}

/// The per-entry thrust forces of the tick.
pub open spec fn spec_forces_of(entries: Seq<Entry>, input: Seq<PlayerInput>, dt: int) -> Seq<
    Vec2Fx,
> {
    Seq::new(
        entries.len(),
        |i: int|
            Vec2Fx {
                x: spec_entry_force(entries[i], input, dt).0 as i128,
                y: spec_entry_force(entries[i], input, dt).1 as i128,
            },
    )
}

/// The per-entry external accelerations of the tick.
pub open spec fn spec_ext_of(entries: Seq<Entry>, input: Seq<PlayerInput>, dt: int) -> Seq<
    Vec2Fx,
> {
    Seq::new(
        entries.len(),
        |i: int|
            Vec2Fx {
                x: spec_entry_ext(entries[i], input, dt).0 as i128,
                y: spec_entry_ext(entries[i], input, dt).1 as i128,
            },
    )
}

/// The thrust phase: runs the thrust model on every rocket entry and
/// collects each entry's world-frame force and external acceleration. The
/// store itself is read-only; the phase fails, with nothing built, when an
/// entry's thrust acceleration leaves the envelope.
fn phase_thrust(entries: &Vec<Entry>, input: &Vec<PlayerInput>, dt: &Dt) -> (r: Result<
    (Vec<Entry>, Vec<Vec2Fx>, Vec<Vec2Fx>),
    SimError,
>)
    requires
        forall|i: int|
            0 <= i < entries@.len() ==> spec_entry_wf(
                #[trigger] entries@[i],
                entries@.len() as int,
            ),
        dt.valid(),
    ensures
        r is Ok <==> spec_thrust_ok(entries@, input@, dt.0 as int),
        r matches Err(e) ==> e == SimError::NumericalError,
        r matches Ok(t) ==> {
            &&& t.0@ == spec_stage1_of(entries@, input@, dt.0 as int)
            &&& t.1@ == spec_forces_of(entries@, input@, dt.0 as int)
            &&& t.2@ == spec_ext_of(entries@, input@, dt.0 as int)
            &&& forall|i: int|
                0 <= i < entries@.len() ==> spec_entry_wf(#[trigger] t.0@[i], entries@.len() as int)
            &&& forall|i: int|
                0 <= i < entries@.len() ==> -8 * AVERSE_TRUST <= (#[trigger] t.1@[i]).x <= 8
                    * AVERSE_TRUST && -8 * AVERSE_TRUST <= t.1@[i].y <= 8 * AVERSE_TRUST
            &&& forall|i: int|
                0 <= i < entries@.len() ==> -ACC_LIMIT_FX <= (#[trigger] t.2@[i]).x
                    <= ACC_LIMIT_FX && -ACC_LIMIT_FX <= t.2@[i].y <= ACC_LIMIT_FX
        },
{
    let n: usize = entries.len();
    let mut s1: Vec<Entry> = Vec::new();
    let mut forces: Vec<Vec2Fx> = Vec::new();
    let mut ext: Vec<Vec2Fx> = Vec::new();
    let mut i: usize = 0;
    while i < n
        invariant
            0 <= i <= n,
            n == entries@.len(),
            forall|k: int|
                0 <= k < n ==> spec_entry_wf(#[trigger] entries@[k], entries@.len() as int),
            dt.valid(),
            s1.len() == i && forces.len() == i && ext.len() == i,
            forall|k: int|
                0 <= k < i ==> (#[trigger] s1@[k]) == spec_entry_thrust(
                    entries@[k],
                    input@,
                    dt.0 as int,
                ) && spec_entry_wf(s1@[k], entries@.len() as int),
            forall|k: int|
                0 <= k < i ==> (#[trigger] forces@[k]).x == spec_entry_force(
                    entries@[k],
                    input@,
                    dt.0 as int,
                ).0 && forces@[k].y == spec_entry_force(entries@[k], input@, dt.0 as int).1 && -8
                    * AVERSE_TRUST <= forces@[k].x <= 8 * AVERSE_TRUST && -8 * AVERSE_TRUST
                    <= forces@[k].y <= 8 * AVERSE_TRUST,
            forall|k: int|
                0 <= k < i ==> (#[trigger] ext@[k]).x == spec_entry_ext(
                    entries@[k],
                    input@,
                    dt.0 as int,
                ).0 && ext@[k].y == spec_entry_ext(entries@[k], input@, dt.0 as int).1
                    && -ACC_LIMIT_FX <= ext@[k].x <= ACC_LIMIT_FX && -ACC_LIMIT_FX <= ext@[k].y
                    <= ACC_LIMIT_FX,
        decreases n - i,
    {
        let e: Entry = entries[i];
        match e.rocket {
            Some(rk) => {
                let mut rk2: Rocket = rk;
                let mut body: NewtonBody = e.n_body;
                let f: Vec2Fx = update_positions(&mut rk2, &mut body, dt, input);
                proof {
                    crate::fixed::lemma_div_magnitude(f.x as int, body.mass as int);
                    crate::fixed::lemma_div_magnitude(f.y as int, body.mass as int);
                }
                let ax: i128 = div_floor(f.x, body.mass);
                let ay: i128 = div_floor(f.y, body.mass);
                if ax < -ACC_LIMIT_FX || ax > ACC_LIMIT_FX || ay < -ACC_LIMIT_FX || ay
                    > ACC_LIMIT_FX {
                    proof {
                        assert(spec_entry_ext(entries@[i as int], input@, dt.0 as int).0 == ax
                            && spec_entry_ext(entries@[i as int], input@, dt.0 as int).1 == ay);
                        assert(!spec_thrust_ok(entries@, input@, dt.0 as int));
                    }
                    return Err(SimError::NumericalError);
                }
                s1.push(
                    Entry {
                        n_body: body,
                        celestial: e.celestial,
                        rocket: Some(rk2),
                        ccb: e.ccb,
                        landing: e.landing,
                    },
                );
                forces.push(f);
                ext.push(Vec2Fx { x: ax, y: ay });
            },
            None => {
                proof {
                    vstd::arithmetic::div_mod::lemma_div_of0(e.n_body.mass as int);
                }
                s1.push(e);
                forces.push(Vec2Fx { x: 0, y: 0 });
                ext.push(Vec2Fx { x: 0, y: 0 });
            },
        }
        i = i + 1;
    }
    proof {
        assert(s1@ =~= spec_stage1_of(entries@, input@, dt.0 as int));
        assert(forces@ =~= spec_forces_of(entries@, input@, dt.0 as int));
        assert(ext@ =~= spec_ext_of(entries@, input@, dt.0 as int));
        assert forall|j: int| 0 <= j < entries@.len() implies {
            let a = #[trigger] spec_entry_ext(entries@[j], input@, dt.0 as int);
            -ACC_LIMIT_FX <= a.0 <= ACC_LIMIT_FX && -ACC_LIMIT_FX <= a.1 <= ACC_LIMIT_FX
        } by {
            assert(ext@[j].x == spec_entry_ext(entries@[j], input@, dt.0 as int).0);
            assert(ext@[j].y == spec_entry_ext(entries@[j], input@, dt.0 as int).1);
        }
    }
    Ok((s1, forces, ext))
}

/// The bodies of a store snapshot, in entry order.
pub open spec fn spec_bodies_of(s: Seq<Entry>) -> Seq<NewtonBody> {
    Seq::new(s.len(), |i: int| s[i].n_body)
}

/// `e` with its kinematic core replaced.
pub open spec fn spec_entry_with_body(e: Entry, b: NewtonBody) -> Entry {
    Entry { n_body: b, celestial: e.celestial, rocket: e.rocket, ccb: e.ccb, landing: e.landing }
}

/// `e` with its closest-body link replaced.
pub open spec fn spec_entry_with_ccb(e: Entry, c: ClosestCelestialBody) -> Entry {
    Entry {
        n_body: e.n_body,
        celestial: e.celestial,
        rocket: e.rocket,
        ccb: Some(c),
        landing: e.landing,
    }
}

/// `e` with its landing relation replaced.
pub open spec fn spec_entry_with_landing(e: Entry, l: Option<LandingRelation>) -> Entry {
    Entry { n_body: e.n_body, celestial: e.celestial, rocket: e.rocket, ccb: e.ccb, landing: l }
}

/// The store after the integration phase: every body takes one integrator
/// step under the pairwise accelerations plus its external acceleration.
pub open spec fn spec_stage2_of(s1: Seq<Entry>, ext: Seq<Vec2Fx>, dt: int) -> Seq<Entry> {
    Seq::new(
        s1.len(),
        |i: int|
            spec_entry_with_body(
                s1[i],
                spec_stepped_body(
                    spec_bodies_of(s1)[i],
                    spec_total_accel(spec_bodies_of(s1), ext, i).0,
                    spec_total_accel(spec_bodies_of(s1), ext, i).1,
                    dt,
                ),
            ),
    )
}

/// An entry after the tracker phase: a tracked entry's link is refreshed to
/// the nearest celestial entry; with no celestial in the store the stale
/// link is kept and landing detection is skipped this tick.
#[verifier::opaque]
pub open spec fn spec_entry_track(s: Seq<Entry>, i: int) -> Entry {
    let e = s[i];
    if e.ccb is Some {
        match spec_best(s, e.n_body.pos, s.len() as int) {
            Some(b) => {
                let pl = s[b];
                let sp = spec_surface_point_local(
                    pl.n_body.pos,
                    pl.n_body.angle as int,
                    pl.celestial->Some_0.radius as int,
                    e.n_body.pos,
                );
                spec_entry_with_ccb(
                    e,
                    ClosestCelestialBody {
                        id: b as usize,
                        closest_surface_point: Vec2Fx { x: sp.0 as i128, y: sp.1 as i128 },
                    },
                )
            },
            None => e,
        }
    } else {
        e
    }
}

/// The store after the tracker phase.
pub open spec fn spec_stage3_of(s: Seq<Entry>) -> Seq<Entry> {
    Seq::new(s.len(), |i: int| spec_entry_track(s, i))
}

/// What the tracker transformer does, case by case, without unfolding the
/// surface-point geometry.
proof fn lemma_track_cases(s: Seq<Entry>, i: int)
    ensures
        spec_entry_track(s, i).n_body == s[i].n_body,
        spec_entry_track(s, i).celestial == s[i].celestial,
        spec_entry_track(s, i).rocket == s[i].rocket,
        spec_entry_track(s, i).landing == s[i].landing,
        s[i].ccb is None ==> spec_entry_track(s, i).ccb == s[i].ccb,
        (s[i].ccb is Some && spec_best(s, s[i].n_body.pos, s.len() as int) is None)
            ==> spec_entry_track(s, i).ccb == s[i].ccb,
        (s[i].ccb is Some && spec_best(s, s[i].n_body.pos, s.len() as int) is Some) ==> (
        spec_entry_track(s, i).ccb is Some && spec_entry_track(s, i).ccb->Some_0.id == spec_best(
            s,
            s[i].n_body.pos,
            s.len() as int,
        )->Some_0 as usize),
{
    reveal(spec_entry_track);
}

/// An entry after the landing phase. A flying rocket with a fresh link
/// lands when it touches the tracked surface, recording the planet and the
/// local-frame contact point; a landed body takes off when its thrust
/// satisfies the take-off rule.
pub open spec fn spec_entry_land(s: Seq<Entry>, i: int, force: Vec2Fx) -> Entry {
    let e = s[i];
    match e.landing {
        None => {
            if e.rocket is Some && e.ccb is Some {
                let c = e.ccb->Some_0;
                let pl = s[c.id as int];
                if pl.celestial is Some && spec_touching(
                    e.n_body.pos,
                    pl.n_body.pos,
                    pl.celestial->Some_0.radius as int,
                ) {
                    spec_entry_with_landing(
                        e,
                        Some(
                            LandingRelation {
                                planet_id: c.id,
                                angle_position: c.closest_surface_point,
                            },
                        ),
                    )
                } else {
                    e
                }
            } else {
                e
            }
        },
        Some(l) => {
            let pl = s[l.planet_id as int];
            if spec_takeoff(
                force,
                e.n_body.pos,
                pl.n_body.pos,
                e.n_body.mass as int,
                pl.n_body.gm as int,
            ) {
                spec_entry_with_landing(e, None)
            } else {
                e
            }
        },
    }
}

/// The store after the landing phase.
pub open spec fn spec_stage4_of(s: Seq<Entry>, forces: Seq<Vec2Fx>) -> Seq<Entry> {
    Seq::new(s.len(), |i: int| spec_entry_land(s, i, forces[i]))
}

/// An entry after the resting phase: a landed body's position and
/// orientation are recomputed from its planet's current rotation.
pub open spec fn spec_entry_rest(s: Seq<Entry>, i: int) -> Entry {
    let e = s[i];
    match e.landing {
        Some(l) => {
            let pl = s[l.planet_id as int];
            match pl.celestial {
                Some(cb) => {
                    let p = spec_resting_pos(
                        pl.n_body.pos,
                        pl.n_body.angle as int,
                        cb.radius as int,
                    );
                    let a = spec_resting_angle(pl.n_body.angle as int);
                    spec_entry_with_body(
                        e,
                        NewtonBody {
                            mass: e.n_body.mass,
                            gm: e.n_body.gm,
                            acc: e.n_body.acc,
                            vel: e.n_body.vel,
                            angle: a as i128,
                            angular_vel: e.n_body.angular_vel,
                            pos: Vec2Fx { x: p.0 as i128, y: p.1 as i128 },
                        },
                    )
                },
                None => e,
            }
        },
        None => e,
    }
}

/// The store after the resting phase.
pub open spec fn spec_stage5_of(s: Seq<Entry>) -> Seq<Entry> {
    Seq::new(s.len(), |i: int| spec_entry_rest(s, i))
}

/// The resting phase stays inside the playing field for every landed body.
pub open spec fn spec_resting_ok(s: Seq<Entry>) -> bool {
    forall|i: int|
        0 <= i < s.len() ==> crate::vec2::spec_in_field(
            (#[trigger] spec_entry_rest(s, i)).n_body.pos,
        )
}

/// The store after thrust and integration.
pub open spec fn spec_s2(entries: Seq<Entry>, input: Seq<PlayerInput>, dt: int) -> Seq<Entry> {
    spec_stage2_of(
        spec_stage1_of(entries, input, dt),
        spec_ext_of(entries, input, dt),
        dt,
    )
}

/// The store after thrust, integration and tracking.
pub open spec fn spec_s3(entries: Seq<Entry>, input: Seq<PlayerInput>, dt: int) -> Seq<Entry> {
    spec_stage3_of(spec_s2(entries, input, dt))
}

/// The store after thrust, integration, tracking and landing.
pub open spec fn spec_s4(entries: Seq<Entry>, input: Seq<PlayerInput>, dt: int) -> Seq<Entry> {
    spec_stage4_of(spec_s3(entries, input, dt), spec_forces_of(entries, input, dt))
}

/// The whole tick succeeds exactly when the thrust phase, the integration
/// and the resting constraint each stay inside the simulation envelope.
pub open spec fn spec_tick_ok(entries: Seq<Entry>, input: Seq<PlayerInput>, dt: int) -> bool {
    &&& spec_thrust_ok(entries, input, dt)
    &&& spec_integration_ok(
        spec_bodies_of(spec_stage1_of(entries, input, dt)),
        spec_ext_of(entries, input, dt),
        dt,
    )
    &&& spec_resting_ok(spec_s4(entries, input, dt))
}

/// The store after one whole tick: thrust, integration, tracking, landing
/// and resting, in that fixed order.
pub open spec fn spec_tick_result(entries: Seq<Entry>, input: Seq<PlayerInput>, dt: int) -> Seq<
    Entry,
> {
    spec_stage5_of(spec_s4(entries, input, dt))
}

/// The integration phase: extracts the body snapshot, runs the pairwise
/// integrator with the external accelerations, and writes the stepped
/// bodies back into fresh entries.
fn phase_step(s1: &Vec<Entry>, ext: &Vec<Vec2Fx>, dt: &Dt) -> (r: Result<Vec<Entry>, SimError>)
    requires
        s1@.len() <= MAX_BODIES,
        forall|i: int|
            0 <= i < s1@.len() ==> spec_entry_wf(#[trigger] s1@[i], s1@.len() as int),
        ext@.len() == s1@.len(),
        forall|i: int|
            0 <= i < ext@.len() ==> -ACC_LIMIT_FX <= (#[trigger] ext@[i]).x <= ACC_LIMIT_FX
                && -ACC_LIMIT_FX <= ext@[i].y <= ACC_LIMIT_FX,
        dt.valid(),
    ensures
        r is Ok <==> spec_integration_ok(spec_bodies_of(s1@), ext@, dt.0 as int),
        r matches Err(e) ==> e == SimError::NumericalError,
        r matches Ok(s2) ==> s2@ == spec_stage2_of(s1@, ext@, dt.0 as int) && forall|i: int|
            0 <= i < s1@.len() ==> spec_entry_wf(#[trigger] s2@[i], s1@.len() as int),
{
    let n: usize = s1.len();
    let mut bodies: Vec<NewtonBody> = Vec::new();
    let mut i: usize = 0;
    while i < n
        invariant
            0 <= i <= n,
            n == s1@.len(),
            bodies.len() == i,
            forall|k: int| 0 <= k < i ==> (#[trigger] bodies@[k]) == s1@[k].n_body,
        decreases n - i,
    {
        bodies.push(s1[i].n_body);
        i = i + 1;
    }
    proof {
        assert(bodies@ =~= spec_bodies_of(s1@));
    }
    match crate::gravity::n_body_iter(&mut bodies, ext, dt) {
        Err(_) => {
            return Err(SimError::NumericalError);
        },
        Ok(()) => {},
    }
    let mut s2: Vec<Entry> = Vec::new();
    let mut i: usize = 0;
    while i < n
        invariant
            0 <= i <= n,
            n == s1@.len(),
            bodies@.len() == n,
            s2.len() == i,
            forall|k: int|
                0 <= k < n ==> spec_entry_wf(#[trigger] s1@[k], s1@.len() as int),
            forall|k: int|
                0 <= k < n ==> (#[trigger] bodies@[k]) == spec_stepped_body(
                    spec_bodies_of(s1@)[k],
                    spec_total_accel(spec_bodies_of(s1@), ext@, k).0,
                    spec_total_accel(spec_bodies_of(s1@), ext@, k).1,
                    dt.0 as int,
                ) && bodies@[k].wf(),
            forall|k: int|
                0 <= k < i ==> (#[trigger] s2@[k]) == spec_entry_with_body(s1@[k], bodies@[k])
                    && spec_entry_wf(s2@[k], s1@.len() as int),
        decreases n - i,
    {
        let e: Entry = s1[i];
        s2.push(
            Entry {
                n_body: bodies[i],
                celestial: e.celestial,
                rocket: e.rocket,
                ccb: e.ccb,
                landing: e.landing,
            },
        );
        i = i + 1;
    }
    proof {
        assert(s2@ =~= spec_stage2_of(s1@, ext@, dt.0 as int));
    }
    Ok(s2)
}

/// The tracker phase: refreshes the closest-body link of every entry that
/// carries one.
fn phase_track(s2: &Vec<Entry>) -> (s3: Vec<Entry>)
    requires
        forall|i: int|
            0 <= i < s2@.len() ==> spec_entry_wf(#[trigger] s2@[i], s2@.len() as int),
    ensures
        s3@ == spec_stage3_of(s2@),
        forall|i: int|
            0 <= i < s2@.len() ==> spec_entry_wf(#[trigger] s3@[i], s2@.len() as int),
{
    let n: usize = s2.len();
    let mut s3: Vec<Entry> = Vec::new();
    let mut i: usize = 0;
    while i < n
        invariant
            0 <= i <= n,
            n == s2@.len(),
            s3.len() == i,
            forall|k: int|
                0 <= k < n ==> spec_entry_wf(#[trigger] s2@[k], s2@.len() as int),
            forall|k: int|
                0 <= k < i ==> (#[trigger] s3@[k]) == spec_entry_track(s2@, k) && spec_entry_wf(
                    s3@[k],
                    s2@.len() as int,
                ),
        decreases n - i,
    {
        proof {
            reveal(spec_entry_track);
        }
        let e: Entry = s2[i];
        if e.ccb.is_some() {
            match crate::tracker::closest_celestial(s2, e.n_body.pos) {
                Ok(c) => {
                    s3.push(
                        Entry {
                            n_body: e.n_body,
                            celestial: e.celestial,
                            rocket: e.rocket,
                            ccb: Some(c),
                            landing: e.landing,
                        },
                    );
                },
                Err(_) => {
                    s3.push(e);
                },
            }
        } else {
            s3.push(e);
        }
        i = i + 1;
    }
    proof {
        assert(s3@ =~= spec_stage3_of(s2@));
    }
    s3
}

/// The landing phase: attaches landing relations for rockets touching
/// their tracked surface and detaches them when the take-off rule fires.
fn phase_land(s3: &Vec<Entry>, forces: &Vec<Vec2Fx>) -> (s4: Vec<Entry>)
    requires
        forall|i: int|
            0 <= i < s3@.len() ==> spec_entry_wf(#[trigger] s3@[i], s3@.len() as int),
        forces@.len() == s3@.len(),
        forall|i: int|
            0 <= i < forces@.len() ==> -8 * AVERSE_TRUST <= (#[trigger] forces@[i]).x <= 8
                * AVERSE_TRUST && -8 * AVERSE_TRUST <= forces@[i].y <= 8 * AVERSE_TRUST,
    ensures
        s4@ == spec_stage4_of(s3@, forces@),
        forall|i: int|
            0 <= i < s3@.len() ==> spec_entry_wf(#[trigger] s4@[i], s3@.len() as int),
{
    let n: usize = s3.len();
    let mut s4: Vec<Entry> = Vec::new();
    let mut i: usize = 0;
    while i < n
        invariant
            0 <= i <= n,
            n == s3@.len() && n == forces@.len(),
            s4.len() == i,
            forall|k: int|
                0 <= k < n ==> spec_entry_wf(#[trigger] s3@[k], s3@.len() as int),
            forall|k: int|
                0 <= k < n ==> -8 * AVERSE_TRUST <= (#[trigger] forces@[k]).x <= 8
                    * AVERSE_TRUST && -8 * AVERSE_TRUST <= forces@[k].y <= 8 * AVERSE_TRUST,
            forall|k: int|
                0 <= k < i ==> (#[trigger] s4@[k]) == spec_entry_land(s3@, k, forces@[k])
                    && spec_entry_wf(s4@[k], s3@.len() as int),
        decreases n - i,
    {
        let e: Entry = s3[i];
        match e.landing {
            None => {
                if e.rocket.is_some() && e.ccb.is_some() {
                    let c: ClosestCelestialBody = match e.ccb {
                        Some(c) => c,
                        None => ClosestCelestialBody {
                            id: 0,
                            closest_surface_point: Vec2Fx { x: 0, y: 0 },
                        },
                    };
                    let pl: Entry = s3[c.id];
                    let attach: bool = match pl.celestial {
                        Some(cb) => crate::landing::landing_touches(
                            e.n_body.pos,
                            pl.n_body.pos,
                            cb.radius,
                        ),
                        None => false,
                    };
                    if attach {
                        s4.push(
                            Entry {
                                n_body: e.n_body,
                                celestial: e.celestial,
                                rocket: e.rocket,
                                ccb: e.ccb,
                                landing: Some(
                                    LandingRelation {
                                        planet_id: c.id,
                                        angle_position: c.closest_surface_point,
                                    },
                                ),
                            },
                        );
                    } else {
                        s4.push(e);
                    }
                } else {
                    s4.push(e);
                }
            },
            Some(l) => {
                let pl: Entry = s3[l.planet_id];
                proof {
                    crate::newton_body::lemma_gm_bounds(pl.n_body.mass as int);
                }
                if crate::landing::takeoff_check(
                    forces[i],
                    e.n_body.pos,
                    pl.n_body.pos,
                    e.n_body.mass,
                    pl.n_body.gm,
                ) {
                    s4.push(
                        Entry {
                            n_body: e.n_body,
                            celestial: e.celestial,
                            rocket: e.rocket,
                            ccb: e.ccb,
                            landing: None,
                        },
                    );
                } else {
                    s4.push(e);
                }
            },
        }
        i = i + 1;
    }
    proof {
        assert(s4@ =~= spec_stage4_of(s3@, forces@));
    }
    s4
}

/// The resting phase: recomputes every landed body's pose from its
/// planet's current rotation, failing the tick if a pose leaves the
/// playing field.
fn phase_rest(s4: &Vec<Entry>) -> (r: Result<Vec<Entry>, SimError>)
    requires
        forall|i: int|
            0 <= i < s4@.len() ==> spec_entry_wf(#[trigger] s4@[i], s4@.len() as int),
    ensures
        r is Ok <==> spec_resting_ok(s4@),
        r matches Err(e) ==> e == SimError::NumericalError,
        r matches Ok(s5) ==> s5@ == spec_stage5_of(s4@) && forall|i: int|
            0 <= i < s4@.len() ==> spec_entry_wf(#[trigger] s5@[i], s4@.len() as int),
{
    let n: usize = s4.len();
    let mut s5: Vec<Entry> = Vec::new();
    let mut i: usize = 0;
    while i < n
        invariant
            0 <= i <= n,
            n == s4@.len(),
            s5.len() == i,
            forall|k: int|
                0 <= k < n ==> spec_entry_wf(#[trigger] s4@[k], s4@.len() as int),
            forall|k: int|
                0 <= k < i ==> (#[trigger] s5@[k]) == spec_entry_rest(s4@, k) && spec_entry_wf(
                    s5@[k],
                    s4@.len() as int,
                ) && crate::vec2::spec_in_field(spec_entry_rest(s4@, k).n_body.pos),
        decreases n - i,
    {
        let e: Entry = s4[i];
        match e.landing {
            Some(l) => {
                let pl: Entry = s4[l.planet_id];
                match pl.celestial {
                    Some(cb) => {
                        let pose: (Vec2Fx, i128) = crate::landing::planet_resting(
                            &pl.n_body,
                            cb.radius,
                        );
                        if pose.0.x < -crate::POS_LIMIT_FX || pose.0.x > crate::POS_LIMIT_FX
                            || pose.0.y < -crate::POS_LIMIT_FX || pose.0.y
                            > crate::POS_LIMIT_FX {
                            proof {
                                assert(!spec_resting_ok(s4@)) by {
                                    assert(!crate::vec2::spec_in_field(
                                        spec_entry_rest(s4@, i as int).n_body.pos,
                                    ));
                                }
                            }
                            return Err(SimError::NumericalError);
                        }
                        s5.push(
                            Entry {
                                n_body: NewtonBody {
                                    mass: e.n_body.mass,
                                    gm: e.n_body.gm,
                                    acc: e.n_body.acc,
                                    vel: e.n_body.vel,
                                    angle: pose.1,
                                    angular_vel: e.n_body.angular_vel,
                                    pos: pose.0,
                                },
                                celestial: e.celestial,
                                rocket: e.rocket,
                                ccb: e.ccb,
                                landing: e.landing,
                            },
                        );
                    },
                    None => {
                        s5.push(e);
                    },
                }
            },
            None => {
                s5.push(e);
            },
        }
        i = i + 1;
    }
    proof {
        assert(s5@ =~= spec_stage5_of(s4@));
        assert forall|j: int| 0 <= j < n implies crate::vec2::spec_in_field(
            (#[trigger] spec_entry_rest(s4@, j)).n_body.pos,
        ) by {
            assert(s5@[j] == spec_entry_rest(s4@, j));
        }
    }
    Ok(s5)
}

/// The body store.
pub struct World {
    pub entries: Vec<Entry>,
}

impl World {
    /// Store-wide well-formedness: bounded size, well-formed entries, and
    /// all cross-references resolving to celestial entries.
    pub open spec fn wf(self) -> bool {
        &&& self.entries@.len() <= MAX_BODIES
        &&& forall|i: int|
            0 <= i < self.entries@.len() ==> spec_entry_wf(
                #[trigger] self.entries@[i],
                self.entries@.len() as int,
            )
        &&& forall|i: int|
            0 <= i < self.entries@.len() ==> spec_entry_refs_celestial(
                #[trigger] self.entries@[i],
                self.entries@,
            )
    }

    /// An empty store.
    pub fn new() -> (w: World)
        ensures
            w.entries@.len() == 0,
            w.wf(),
    {
        World { entries: Vec::new() }
    }

    /// Adds one entity to the store: a well-formed body with optional
    /// celestial and rocket tags, and optionally a closest-body link that
    /// must name an existing celestial entry. Returns the new entry's
    /// index. A full store or a dangling link is a `ConfigurationError`.
    pub fn push_body(
        &mut self,
        body: NewtonBody,
        celestial: Option<CelestialBody>,
        rocket: Option<Rocket>,
        link_to: Option<usize>,
    ) -> (r: Result<usize, SimError>)
        requires
            old(self).wf(),
            body.wf(),
            celestial matches Some(c) ==> c.wf(),
            rocket matches Some(rk) ==> rk.wf(),
        ensures
            final(self).wf(),
            r matches Err(e) ==> e == SimError::ConfigurationError && final(self).entries@ == old(
                self,
            ).entries@,
            r matches Ok(i) ==> {
                &&& final(self).entries@.len() == old(self).entries@.len() + 1
                &&& i == old(self).entries@.len()
                &&& final(self).entries@.subrange(0, i as int) == old(self).entries@
                &&& final(self).entries@[i as int].n_body == body
                &&& final(self).entries@[i as int].celestial == celestial
                &&& final(self).entries@[i as int].rocket == rocket
                &&& final(self).entries@[i as int].landing is None
            },
            r is Ok <==> old(self).entries@.len() < MAX_BODIES && (link_to matches Some(t)
                ==> t < old(self).entries@.len() && old(self).entries@[t as int].celestial
                is Some),
    {
        if self.entries.len() >= MAX_BODIES {
            return Err(SimError::ConfigurationError);
        }
        let ccb: Option<ClosestCelestialBody> = match link_to {
            Some(t) => {
                if t >= self.entries.len() {
                    return Err(SimError::ConfigurationError);
                }
                if self.entries[t].celestial.is_none() {
                    return Err(SimError::ConfigurationError);
                }
                Some(
                    ClosestCelestialBody {
                        id: t,
                        closest_surface_point: Vec2Fx { x: 0, y: 0 },
                    },
                )
            },
            None => None,
        };
        let i: usize = self.entries.len();
        self.entries.push(
            Entry { n_body: body, celestial, rocket, ccb, landing: None },
        );
        proof {
            assert(final(self).entries@.subrange(0, i as int) =~= old(self).entries@);
            assert forall|k: int| 0 <= k < final(self).entries@.len() implies spec_entry_wf(
                #[trigger] final(self).entries@[k],
                final(self).entries@.len() as int,
            ) && spec_entry_refs_celestial(final(self).entries@[k], final(self).entries@) by {
                if k < i {
                    assert(final(self).entries@[k] == old(self).entries@[k]);
                    assert(spec_entry_wf(old(self).entries@[k], old(self).entries@.len() as int));
                    assert(spec_entry_refs_celestial(old(self).entries@[k], old(self).entries@));
                    if old(self).entries@[k].ccb is Some {
                        let c = old(self).entries@[k].ccb->Some_0;
                        assert(final(self).entries@[c.id as int] == old(self).entries@[c.id as int]);
                    }
                    if old(self).entries@[k].landing is Some {
                        let l = old(self).entries@[k].landing->Some_0;
                        assert(final(self).entries@[l.planet_id as int] == old(
                            self,
                        ).entries@[l.planet_id as int]);
                    }
                }
            }
        }
        Ok(i)
    }

    /// One simulation tick: thrust, gravity integration, closest-body
    /// tracking, landing detection with the take-off rule, and the resting
    /// constraint, in that fixed order, all against consistent snapshots.
    /// On any numerical failure the store is left exactly as it was and the
    /// tick is lost; on success the store equals the tick's specification
    /// and stays well-formed (in particular every orientation angle remains
    /// in `[0, 2*pi)`).
    #[verifier::rlimit(100)]
    pub fn tick(&mut self, dt: &Dt, input: &Vec<PlayerInput>) -> (r: Result<(), SimError>)
        requires
            old(self).wf(),
            dt.valid(),
        ensures
            r is Ok <==> spec_tick_ok(old(self).entries@, input@, dt.0 as int),
            r matches Err(e) ==> e == SimError::NumericalError && final(self).entries@ == old(
                self,
            ).entries@,
            r is Ok ==> final(self).entries@ == spec_tick_result(
                old(self).entries@,
                input@,
                dt.0 as int,
            ),
            r is Ok ==> final(self).wf(),
    {
        let ghost entries0: Seq<Entry> = self.entries@;
        let (s1, forces, ext): (Vec<Entry>, Vec<Vec2Fx>, Vec<Vec2Fx>) = match phase_thrust(
            &self.entries,
            input,
            dt,
        ) {
            Ok(t) => t,
            Err(e) => {
                return Err(e);
            },
        };
        let s2: Vec<Entry> = match phase_step(&s1, &ext, dt) {
            Ok(v) => v,
            Err(e) => {
                return Err(e);
            },
        };
        let s3: Vec<Entry> = phase_track(&s2);
        let s4: Vec<Entry> = phase_land(&s3, &forces);
        let s5: Vec<Entry> = match phase_rest(&s4) {
            Ok(v) => v,
            Err(e) => {
                return Err(e);
            },
        };
        proof {
            let d: int = dt.0 as int;
            assert(s2@ == spec_s2(entries0, input@, d));
            assert(s3@ == spec_s3(entries0, input@, d));
            assert(s4@ == spec_s4(entries0, input@, d));
            assert(s5@ == spec_tick_result(entries0, input@, d));
            assert forall|i: int| 0 <= i < entries0.len() implies spec_entry_refs_celestial(
                #[trigger] spec_tick_result(entries0, input@, d)[i],
                spec_tick_result(entries0, input@, d),
            ) by {
                lemma_tick_ccb_at(entries0, input@, d, i);
                lemma_tick_landing_at(entries0, input@, d, i);
            }
        }
        self.entries = s5;
        Ok(())
    }
}

/// LAW (landing persistence): a landed body stays landed through any run
/// of ticks that ask for no thrust. If the entry's rocket is cold (all
/// four throttles shut — or there is no rocket at all) and the intent
/// snapshot holds no movement intent, the tick's thrust force is zero, the
/// take-off rule cannot fire, and the landing relation survives the tick
/// unchanged; `lemma_resting_on_surface` then keeps the body's pose on the
/// surface circle for as long as the relation holds.
pub proof fn lemma_no_thrust_keeps_landed(
    entries: Seq<Entry>,
    input: Seq<PlayerInput>,
    dt: int,
    i: int,
)
    requires
        entries.len() <= usize::MAX,
        0 <= i < entries.len(),
        entries[i].landing is Some,
        entries[i].rocket matches Some(rk) ==> rk.engine_averse.throttle == 0
            && rk.engine_reverse.throttle == 0 && rk.engine_left.throttle == 0
            && rk.engine_right.throttle == 0,
        !input.contains(PlayerInput::MoveForward),
        !input.contains(PlayerInput::MoveBackward),
        !input.contains(PlayerInput::MoveLeft),
        !input.contains(PlayerInput::MoveRight),
    ensures
        spec_tick_result(entries, input, dt)[i].landing == entries[i].landing,
{
    let s1 = spec_stage1_of(entries, input, dt);
    let s3 = spec_s3(entries, input, dt);
    let s4 = spec_s4(entries, input, dt);
    lemma_stage_fields(entries, input, dt, i);
    assert(s1[i] == spec_entry_thrust(entries[i], input, dt));
    vstd::arithmetic::div_mod::lemma_div_of0(crate::fixed::FX_ONE as int);
    let f: (int, int) = spec_entry_force(entries[i], input, dt);
    assert(f == (0int, 0int)) by {
        match entries[i].rocket {
            Some(rk) => {
                let rk2 = spec_rocket_after(rk, input, dt);
                assert(rk2.engine_averse.throttle == 0 && rk2.engine_reverse.throttle == 0
                    && rk2.engine_left.throttle == 0 && rk2.engine_right.throttle == 0);
                assert(rk2.engine_averse.vector.x as int * (rk2.engine_averse.throttle as int)
                    == 0 && rk2.engine_averse.vector.y as int * (
                rk2.engine_averse.throttle as int) == 0) by (nonlinear_arith)
                    requires
                        rk2.engine_averse.throttle == 0,
                ;
                assert(rk2.engine_reverse.vector.x as int * (rk2.engine_reverse.throttle as int)
                    == 0 && rk2.engine_reverse.vector.y as int * (
                rk2.engine_reverse.throttle as int) == 0) by (nonlinear_arith)
                    requires
                        rk2.engine_reverse.throttle == 0,
                ;
                assert(rk2.engine_left.vector.x as int * (rk2.engine_left.throttle as int) == 0
                    && rk2.engine_left.vector.y as int * (rk2.engine_left.throttle as int)
                    == 0) by (nonlinear_arith)
                    requires
                        rk2.engine_left.throttle == 0,
                ;
                assert(rk2.engine_right.vector.x as int * (rk2.engine_right.throttle as int)
                    == 0 && rk2.engine_right.vector.y as int * (
                rk2.engine_right.throttle as int) == 0) by (nonlinear_arith)
                    requires
                        rk2.engine_right.throttle == 0,
                ;
                assert(rk2.spec_rocket_trust().0 == 0 && rk2.spec_rocket_trust().1 == 0);
                let a: int = entries[i].n_body.angle as int;
                assert(0int * crate::trig::spec_cos_fx(a) == 0 && 0int * crate::trig::spec_sin_fx(
                    a,
                ) == 0) by (nonlinear_arith);
            },
            None => {},
        }
    }
    assert(spec_forces_of(entries, input, dt)[i] == (Vec2Fx { x: 0, y: 0 }));
    assert(s4[i] == spec_entry_land(s3, i, Vec2Fx { x: 0, y: 0 }));
    assert(s3[i].landing == entries[i].landing);
    let pl = s3[s3[i].landing->Some_0.planet_id as int];
    assert(!spec_takeoff(
        Vec2Fx { x: 0, y: 0 },
        s3[i].n_body.pos,
        pl.n_body.pos,
        s3[i].n_body.mass as int,
        pl.n_body.gm as int,
    )) by {
        reveal(spec_takeoff);
        vstd::arithmetic::div_mod::lemma_div_of0(crate::fixed::FX_ONE as int);
        let ux: int = crate::vec2::spec_metres(s3[i].n_body.pos.x - pl.n_body.pos.x);
        let uy: int = crate::vec2::spec_metres(s3[i].n_body.pos.y - pl.n_body.pos.y);
        assert(0int * ux == 0 && 0int * uy == 0) by (nonlinear_arith);
    }
    assert(s4[i].landing == s3[i].landing);
}

/// Stage transformers touch only the fields they are about: the celestial
/// tag survives the whole tick, the link is settled by the tracker phase
/// and the relation by the landing phase.
proof fn lemma_stage_fields(entries: Seq<Entry>, input: Seq<PlayerInput>, dt: int, j: int)
    requires
        0 <= j < entries.len(),
    ensures
        spec_tick_result(entries, input, dt)[j].celestial == entries[j].celestial,
        spec_tick_result(entries, input, dt)[j].ccb == spec_s3(entries, input, dt)[j].ccb,
        spec_tick_result(entries, input, dt)[j].landing == spec_s4(entries, input, dt)[j].landing,
        spec_s2(entries, input, dt)[j].celestial == entries[j].celestial,
        spec_s2(entries, input, dt)[j].ccb == entries[j].ccb,
        spec_s3(entries, input, dt)[j].celestial == entries[j].celestial,
        spec_s3(entries, input, dt)[j].landing == entries[j].landing,
        spec_s4(entries, input, dt)[j].celestial == entries[j].celestial,
{
    let s1 = spec_stage1_of(entries, input, dt);
    let ext = spec_ext_of(entries, input, dt);
    let s2 = spec_s2(entries, input, dt);
    let s3 = spec_s3(entries, input, dt);
    let s4 = spec_s4(entries, input, dt);
    let s5 = spec_tick_result(entries, input, dt);
    assert(s1[j] == spec_entry_thrust(entries[j], input, dt));
    assert(s2[j] == spec_entry_with_body(
        s1[j],
        spec_stepped_body(
            spec_bodies_of(s1)[j],
            spec_total_accel(spec_bodies_of(s1), ext, j).0,
            spec_total_accel(spec_bodies_of(s1), ext, j).1,
            dt,
        ),
    ));
    assert(s3[j] == spec_entry_track(s2, j));
    lemma_track_cases(s2, j);
    assert(s4[j] == spec_entry_land(s3, j, spec_forces_of(entries, input, dt)[j]));
    assert(s5[j] == spec_entry_rest(s4, j));
}

/// A result entry's closest-body link names a celestial entry: a fresh
/// link comes from the tracker, which only picks celestial entries; a
/// stale one inherits the property from the store the tick started from.
#[verifier::rlimit(100)]
proof fn lemma_tick_ccb_at(entries: Seq<Entry>, input: Seq<PlayerInput>, dt: int, i: int)
    requires
        entries.len() <= usize::MAX,
        0 <= i < entries.len(),
        forall|k: int|
            0 <= k < entries.len() ==> spec_entry_wf(#[trigger] entries[k], entries.len() as int),
        forall|k: int|
            0 <= k < entries.len() ==> spec_entry_refs_celestial(#[trigger] entries[k], entries),
    ensures
        spec_tick_result(entries, input, dt)[i].ccb matches Some(c) ==> spec_tick_result(
            entries,
            input,
            dt,
        )[c.id as int].celestial is Some,
{
    let n: int = entries.len() as int;
    let s2 = spec_s2(entries, input, dt);
    let s3 = spec_s3(entries, input, dt);
    let s5 = spec_tick_result(entries, input, dt);
    lemma_stage_fields(entries, input, dt, i);
    assert(s3[i] == spec_entry_track(s2, i));
    lemma_track_cases(s2, i);
    crate::tracker::lemma_spec_best_celestial(s2, s2[i].n_body.pos, n);
    if s5[i].ccb is Some {
        let c = s5[i].ccb->Some_0;
        if s2[i].ccb is Some && spec_best(s2, s2[i].n_body.pos, n) is Some {
            let b: int = spec_best(s2, s2[i].n_body.pos, n)->Some_0;
            assert(0 <= b < n);
            assert(c.id == b as usize);
            assert(s2[b].celestial is Some);
            lemma_stage_fields(entries, input, dt, b);
            assert(s5[b].celestial == entries[b].celestial && s2[b].celestial == entries[b].celestial);
        } else {
            assert(s5[i].ccb == entries[i].ccb);
            assert(spec_entry_wf(entries[i], n));
            assert(spec_entry_refs_celestial(entries[i], entries));
            assert(entries[c.id as int].celestial is Some);
            lemma_stage_fields(entries, input, dt, c.id as int);
        }
    }
}

/// A result entry's landing relation names a celestial entry: a fresh
/// relation records the tracker's link, and a kept one inherits the
/// property from the store the tick started from.
#[verifier::rlimit(100)]
proof fn lemma_tick_landing_at(entries: Seq<Entry>, input: Seq<PlayerInput>, dt: int, i: int)
    requires
        entries.len() <= usize::MAX,
        0 <= i < entries.len(),
        forall|k: int|
            0 <= k < entries.len() ==> spec_entry_wf(#[trigger] entries[k], entries.len() as int),
        forall|k: int|
            0 <= k < entries.len() ==> spec_entry_refs_celestial(#[trigger] entries[k], entries),
    ensures
        spec_tick_result(entries, input, dt)[i].landing matches Some(l) ==> spec_tick_result(
            entries,
            input,
            dt,
        )[l.planet_id as int].celestial is Some,
{
    let n: int = entries.len() as int;
    let s2 = spec_s2(entries, input, dt);
    let s3 = spec_s3(entries, input, dt);
    let s5 = spec_tick_result(entries, input, dt);
    lemma_stage_fields(entries, input, dt, i);
    assert(spec_s4(entries, input, dt)[i] == spec_entry_land(
        s3,
        i,
        spec_forces_of(entries, input, dt)[i],
    ));
    if s5[i].landing is Some {
        let l = s5[i].landing->Some_0;
        if s3[i].landing is Some {
            assert(l == s3[i].landing->Some_0);
            assert(s3[i].landing == entries[i].landing);
            assert(spec_entry_refs_celestial(entries[i], entries));
            assert(spec_entry_wf(entries[i], n));
            assert(entries[l.planet_id as int].celestial is Some);
            lemma_stage_fields(entries, input, dt, l.planet_id as int);
        } else {
            assert(s3[i].ccb is Some && l.planet_id == s3[i].ccb->Some_0.id);
            assert(s3[i] == spec_entry_track(s2, i));
            lemma_track_cases(s2, i);
            crate::tracker::lemma_spec_best_celestial(s2, s2[i].n_body.pos, n);
            assert(spec_entry_wf(entries[i], n));
            assert(s2[i].ccb == entries[i].ccb);
            assert(0 <= l.planet_id < n);
            assert(s3[l.planet_id as int].celestial is Some);
            lemma_stage_fields(entries, input, dt, l.planet_id as int);
        }
    }
}

} // verus!
