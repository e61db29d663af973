use ksp2d::celestial_body::CelestialBody;
use ksp2d::celestial_body::CelestialBodyType;
use ksp2d::fixed::FX_ONE;
use ksp2d::landing::landing_touches;
use ksp2d::landing::planet_resting;
use ksp2d::newton_body::NewtonBody;
use ksp2d::rocket::PlayerInput;
use ksp2d::rocket::Rocket;
use ksp2d::vec2::Vec2Fx;
use ksp2d::world::World;
use ksp2d::Dt;

const PLANET_MASS: i128 = 1_000_000_000_000_000_000_000_000;
const PLANET_RADIUS_M: i128 = 7_000_000;

fn landing_world(spin: i128) -> World {
    let mut w = World::new();
    let planet = NewtonBody::new(
        PLANET_MASS,
        Vec2Fx { x: 0, y: 0 },
        Vec2Fx { x: 0, y: 0 },
        0,
        spin,
    )
    .unwrap();
    let tag = CelestialBody::new(CelestialBodyType::Planet, PLANET_RADIUS_M * FX_ONE).unwrap();
    w.push_body(planet, Some(tag), None, None).unwrap();
    // A rocket hovering just inside the surface, straight above the centre.
    let rocket = NewtonBody::new(
        2_965_000,
        Vec2Fx { x: 0, y: (PLANET_RADIUS_M - 10) * FX_ONE },
        Vec2Fx { x: 0, y: 0 },
        0,
        0,
    )
    .unwrap();
    w.push_body(rocket, None, Some(Rocket::new()), Some(0)).unwrap();
    w
}

fn rocket_planet_distance_m(w: &World) -> f64 {
    let p = w.entries[0].n_body.pos;
    let r = w.entries[1].n_body.pos;
    let dx = (r.x - p.x) as f64 / FX_ONE as f64;
    let dy = (r.y - p.y) as f64 / FX_ONE as f64;
    (dx * dx + dy * dy).sqrt()
}

#[test]
fn touching_test_is_exact_at_the_surface() {
    let c = Vec2Fx { x: 0, y: 0 };
    let on = Vec2Fx { x: 0, y: PLANET_RADIUS_M * FX_ONE };
    let above = Vec2Fx { x: 0, y: (PLANET_RADIUS_M + 1) * FX_ONE };
    assert!(landing_touches(on, c, PLANET_RADIUS_M * FX_ONE));
    assert!(!landing_touches(above, c, PLANET_RADIUS_M * FX_ONE));
}

#[test]
fn landing_attaches_on_contact() {
    let mut w = landing_world(0);
    assert!(w.entries[1].landing.is_none());
    let none: Vec<PlayerInput> = Vec::new();
    w.tick(&Dt(FX_ONE), &none).unwrap();
    let rel = w.entries[1].landing.expect("rocket should have landed");
    assert_eq!(rel.planet_id, 0);
}

#[test]
fn landed_body_rests_on_the_surface_for_many_rotations() {
    // Planet spinning at one radian per second; 400 one-second ticks is
    // over 60 full rotations.
    let mut w = landing_world(FX_ONE);
    let none: Vec<PlayerInput> = Vec::new();
    w.tick(&Dt(FX_ONE), &none).unwrap();
    assert!(w.entries[1].landing.is_some());
    for _ in 0..400 {
        w.tick(&Dt(FX_ONE), &none).unwrap();
        assert!(w.entries[1].landing.is_some());
        let d = rocket_planet_distance_m(&w);
        assert!(
            (d - PLANET_RADIUS_M as f64).abs() <= 1.0,
            "distance {} left the surface radius {}",
            d,
            PLANET_RADIUS_M
        );
    }
}

#[test]
fn landed_body_counter_rotates_with_the_surface() {
    let mut w = landing_world(FX_ONE);
    let none: Vec<PlayerInput> = Vec::new();
    for _ in 0..10 {
        w.tick(&Dt(FX_ONE), &none).unwrap();
    }
    let planet_angle = w.entries[0].n_body.angle;
    let rocket_angle = w.entries[1].n_body.angle;
    let tau = ksp2d::fixed::TAU_FX;
    assert_eq!(rocket_angle, (-planet_angle).rem_euclid(tau));
}

#[test]
fn outward_thrust_triggers_takeoff() {
    let mut w = landing_world(0);
    let none: Vec<PlayerInput> = Vec::new();
    w.tick(&Dt(FX_ONE), &none).unwrap();
    assert!(w.entries[1].landing.is_some());
    // The rocket rests above the centre at angle 0; its aft engine pushes
    // along +y, straight off the surface, far harder than surface gravity.
    let input = vec![PlayerInput::MoveBackward];
    w.tick(&Dt(FX_ONE), &input).unwrap();
    w.tick(&Dt(FX_ONE), &input).unwrap();
    assert!(w.entries[1].landing.is_none(), "rocket should have taken off");
}

#[test]
fn resting_pose_distance_is_exact_within_centimetres() {
    let radius = 86_962_500i128 * FX_ONE;
    for k in 0..64 {
        let angle = (k * ksp2d::fixed::TAU_FX) / 64;
        let planet = NewtonBody::new(
            PLANET_MASS,
            Vec2Fx { x: 0, y: 0 },
            Vec2Fx { x: 0, y: 0 },
            angle,
            0,
        )
        .unwrap();
        let (pos, _) = planet_resting(&planet, radius);
        let dsq = (pos.x as f64) * (pos.x as f64) + (pos.y as f64) * (pos.y as f64);
        let dist = dsq.sqrt();
        let err_metres = (dist - radius as f64).abs() / FX_ONE as f64;
        assert!(err_metres < 0.1, "resting pose off surface by {} m", err_metres);
    }
}

#[test]
fn landing_detection_is_independent_of_approach_side() {
    // A body 10.5 m from the centre of a planet of radius 10.7 m is in
    // contact from either side; at 11.5 m it is clear from either side.
    let c = Vec2Fx { x: 0, y: 0 };
    let r = 10 * FX_ONE + 7 * FX_ONE / 10;
    let near = 10 * FX_ONE + FX_ONE / 2;
    let clear = 11 * FX_ONE + FX_ONE / 2;
    assert!(landing_touches(Vec2Fx { x: 0, y: near }, c, r));
    assert!(landing_touches(Vec2Fx { x: 0, y: -near }, c, r));
    assert!(!landing_touches(Vec2Fx { x: 0, y: clear }, c, r));
    assert!(!landing_touches(Vec2Fx { x: 0, y: -clear }, c, r));
}
