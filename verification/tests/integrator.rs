use ksp2d::fixed::FX_ONE;
use ksp2d::gravity::calculate_energy;
use ksp2d::gravity::gravitational_accel;
use ksp2d::gravity::n_body_iter;
use ksp2d::newton_body::NewtonBody;
use ksp2d::vec2::Vec2Fx;
use ksp2d::Dt;
use ksp2d::SimError;

fn body(mass: i128, px: i128, py: i128, vx: i128, vy: i128) -> NewtonBody {
    NewtonBody::new(
        mass,
        Vec2Fx { x: px, y: py },
        Vec2Fx { x: vx, y: vy },
        0,
        0,
    )
    .unwrap()
}

fn zeros(n: usize) -> Vec<Vec2Fx> {
    let mut v = Vec::new();
    for _ in 0..n {
        v.push(Vec2Fx { x: 0, y: 0 });
    }
    v
}

fn dist_m(a: &NewtonBody, b: &NewtonBody) -> i128 {
    let dx = (b.pos.x - a.pos.x) / FX_ONE;
    let dy = (b.pos.y - a.pos.y) / FX_ONE;
    (((dx * dx + dy * dy) as f64).sqrt()) as i128
}

// One star of 1.0e30 kg at the origin; one planet of 1.0e24 kg at
// (1.0e11, 0) metres with the circular orbital speed along +y.
fn two_body() -> Vec<NewtonBody> {
    let star = body(1_000_000_000_000_000_000_000_000_000_000, 0, 0, 0, 0);
    let planet = body(
        1_000_000_000_000_000_000_000_000,
        100_000_000_000 * FX_ONE,
        0,
        0,
        25834 * FX_ONE,
    );
    vec![star, planet]
}

#[test]
fn pair_acceleration_exact() {
    let star = body(1_000_000_000_000_000_000_000_000_000_000, 100_000_000_000 * FX_ONE, 0, 0, 0);
    let probe = body(1_000_000, 0, 0, 0, 0);
    let (ax, ay) = gravitational_accel(probe.pos, star.pos, star.gm).unwrap();
    // G * 1e30 / (1e11)^2 = 6.6743e-3 m/s^2, scaled by 2^32.
    assert_eq!(ax, 28665900);
    assert_eq!(ay, 0);
}

#[test]
fn pair_acceleration_rejects_coincident_bodies() {
    let a = body(1_000_000, 5 * FX_ONE, 5 * FX_ONE, 0, 0);
    assert_eq!(
        gravitational_accel(a.pos, a.pos, a.gm),
        Err(SimError::NumericalError)
    );
}

#[test]
fn integrator_rejects_coincident_bodies_and_leaves_store() {
    let mut bodies = vec![
        body(1_000_000, 0, 0, 0, 0),
        body(1_000_000, 0, 0, 0, 0),
    ];
    let before = bodies.clone();
    let ext = zeros(2);
    let r = n_body_iter(&mut bodies, &ext, &Dt(60 * FX_ONE));
    assert_eq!(r, Err(SimError::NumericalError));
    assert_eq!(bodies, before);
}

#[test]
fn zero_step_is_a_no_op_on_position_and_velocity() {
    let mut bodies = two_body();
    let before = bodies.clone();
    let ext = zeros(2);
    n_body_iter(&mut bodies, &ext, &Dt(0)).unwrap();
    for (b, a) in bodies.iter().zip(before.iter()) {
        assert_eq!(b.pos, a.pos);
        assert_eq!(b.vel, a.vel);
        assert_eq!(b.angle, a.angle);
    }
}

#[test]
fn circular_orbit_radius_holds_over_1000_ticks() {
    let mut bodies = two_body();
    let ext = zeros(2);
    let dt = Dt(60 * FX_ONE);
    for _ in 0..1000 {
        n_body_iter(&mut bodies, &ext, &dt).unwrap();
    }
    let d = dist_m(&bodies[0], &bodies[1]);
    let r = 100_000_000_000i128;
    assert!((d - r).abs() * 100 < r, "distance {} drifted from {}", d, r);
}

#[test]
fn circular_orbit_radius_holds_over_full_period() {
    // One orbital period: 2*pi*r / v, about 405357 sixty-second ticks.
    let mut bodies = two_body();
    let ext = zeros(2);
    let dt = Dt(60 * FX_ONE);
    for _ in 0..405357 {
        n_body_iter(&mut bodies, &ext, &dt).unwrap();
    }
    let d = dist_m(&bodies[0], &bodies[1]);
    let r = 100_000_000_000i128;
    assert!((d - r).abs() * 100 < r, "distance {} drifted from {}", d, r);
}

#[test]
fn initial_energy_matches_exactly() {
    let bodies = two_body();
    assert_eq!(calculate_energy(&bodies), -20258348473);
}

#[test]
fn energy_drift_stays_bounded_over_full_period() {
    let mut bodies = two_body();
    let e0 = calculate_energy(&bodies);
    let ext = zeros(2);
    let dt = Dt(60 * FX_ONE);
    for _ in 0..405357 {
        n_body_iter(&mut bodies, &ext, &dt).unwrap();
    }
    let e1 = calculate_energy(&bodies);
    // Semi-implicit Euler at dt = 60 s: the drift over one full orbit
    // stays within one percent of the total energy.
    assert!((e1 - e0).abs() * 100 < e0.abs(), "energy drifted {} -> {}", e0, e1);
}

#[test]
fn paired_accelerations_are_exact_negations() {
    // A separation of 1.5 m: metre resolution rounds both directions to
    // one whole metre, so the two directed accelerations negate exactly.
    let gm = 1_000_000_000_000i128;
    let a = Vec2Fx { x: 0, y: 0 };
    let b = Vec2Fx { x: 3 * FX_ONE / 2, y: 0 };
    let ab = gravitational_accel(a, b, gm).unwrap();
    let ba = gravitational_accel(b, a, gm).unwrap();
    assert_eq!(ab.0, -ba.0);
    assert_eq!(ab.1, -ba.1);
    // The same holds on a skew separation with fractional metre parts.
    let c = Vec2Fx { x: -7 * FX_ONE / 2, y: 5 * FX_ONE / 4 };
    let ac = gravitational_accel(a, c, gm).unwrap();
    let ca = gravitational_accel(c, a, gm).unwrap();
    assert_eq!(ac.0, -ca.0);
    assert_eq!(ac.1, -ca.1);
}

#[test]
fn equal_bodies_conserve_momentum_over_a_step() {
    // Two equal masses at rest: the pairwise accelerations are exact
    // negations, so after one step the total momentum moves only by the
    // velocity step's rounding — at most one 2^-32 unit per axis.
    let m = 1_000_000_000_000_000_000i128;
    let mut bodies = vec![
        body(m, 0, 0, 0, 0),
        body(m, 3 * FX_ONE / 2, 5 * FX_ONE / 4, 0, 0),
    ];
    let ext = zeros(2);
    n_body_iter(&mut bodies, &ext, &Dt(FX_ONE / 1000)).unwrap();
    assert_eq!(bodies[0].acc.x, -bodies[1].acc.x);
    assert_eq!(bodies[0].acc.y, -bodies[1].acc.y);
    assert!((bodies[0].vel.x + bodies[1].vel.x).abs() <= 1);
    assert!((bodies[0].vel.y + bodies[1].vel.y).abs() <= 1);
}
