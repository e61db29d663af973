use ksp2d::celestial_body::CelestialBodyType;
use ksp2d::fixed::FX_ONE;
use ksp2d::system_generation::calculate_radius;
use ksp2d::system_generation::generate_system;
use ksp2d::system_generation::get_system;
use ksp2d::system_generation::STAR_MASS;
use ksp2d::system_generation::STAR_RADIUS_FX;
use ksp2d::SimError;

#[test]
fn generator_rejects_bad_field_size() {
    let draws: Vec<u64> = Vec::new();
    assert_eq!(
        generate_system(0, &draws).unwrap_err(),
        SimError::ConfigurationError
    );
    assert_eq!(
        generate_system(-4, &draws).unwrap_err(),
        SimError::ConfigurationError
    );
    assert_eq!(get_system(0).unwrap_err(), SimError::ConfigurationError);
}

#[test]
fn generator_puts_the_star_first() {
    let radius: i128 = 5_000_000_000 * FX_ONE;
    let draws: Vec<u64> = vec![7, 42, 99, 1234, 5, 6, 7, 8, 9, 10, 11, 12];
    let sys = generate_system(radius, &draws).unwrap();
    assert!(!sys.is_empty());
    assert_eq!(sys[0].0.b_type, CelestialBodyType::Star);
    assert_eq!(sys[0].0.radius, STAR_RADIUS_FX);
    assert_eq!(sys[0].1.mass, STAR_MASS);
    assert_eq!(sys[0].1.pos.x, radius);
    assert_eq!(sys[0].1.pos.y, radius);
    assert_eq!(sys[0].1.vel.x, 0);
    assert_eq!(sys[0].1.vel.y, 0);
}

#[test]
fn generated_planets_orbit_at_circular_speed() {
    let radius: i128 = 5_000_000_000 * FX_ONE;
    let sys = get_system(radius).unwrap();
    let center = sys[0].1.pos;
    let star_gm = sys[0].1.gm;
    for (tag, body) in sys.iter().skip(1) {
        assert_eq!(tag.b_type, CelestialBodyType::Planet);
        assert!(tag.radius > 0);
        assert!(body.mass > 0);
        // Distance and speed in metres and metres per second.
        let dx = ((body.pos.x - center.x) / FX_ONE) as f64;
        let dy = ((body.pos.y - center.y) / FX_ONE) as f64;
        let r = (dx * dx + dy * dy).sqrt();
        let vx = body.vel.x as f64 / FX_ONE as f64;
        let vy = body.vel.y as f64 / FX_ONE as f64;
        let speed = (vx * vx + vy * vy).sqrt();
        let expected = ((star_gm as f64 / FX_ONE as f64) / r).sqrt();
        let rel = (speed - expected).abs() / expected;
        assert!(rel < 0.01, "speed {} expected {}", speed, expected);
        // The velocity is perpendicular to the radius vector.
        let dot = dx * vx + dy * vy;
        let cosine = dot / (r * speed);
        assert!(cosine.abs() < 0.01, "velocity not perpendicular: {}", cosine);
    }
}

#[test]
fn generated_system_is_deterministic_in_the_draws() {
    let radius: i128 = 5_000_000_000 * FX_ONE;
    let draws: Vec<u64> = (0..64u64).map(|k| k.wrapping_mul(0x9E37_79B9_7F4A_7C15)).collect();
    let a = generate_system(radius, &draws).unwrap();
    let b = generate_system(radius, &draws).unwrap();
    assert!(a.len() >= 2, "the fixed draw sequence should emit planets");
    assert_eq!(a.len(), b.len());
    for (x, y) in a.iter().zip(b.iter()) {
        assert_eq!(x.0, y.0);
        assert_eq!(x.1, y.1);
    }
}

#[test]
fn planet_radius_from_mass_and_density() {
    // 1.0e24 kg at 5000 kg/m^3: r = cbrt(3 m / (4 pi rho)) ~ 3.628e6 m.
    let r = calculate_radius(1_000_000_000_000_000_000_000_000, 5000);
    let metres = r / FX_ONE;
    assert!((metres - 3_628_000).abs() < 10_000, "radius {} m", metres);
    // Denser material packs the same mass into a smaller ball.
    let r2 = calculate_radius(1_000_000_000_000_000_000_000_000, 1330);
    assert!(r2 > r);
}
