use ksp2d::celestial_body::CelestialBody;
use ksp2d::celestial_body::CelestialBodyType;
use ksp2d::fixed::FX_ONE;
use ksp2d::info::update_info;
use ksp2d::info::CameraMode;
use ksp2d::info::FlightInfo;
use ksp2d::info::PerformanceInfo;
use ksp2d::info::flight_info;
use ksp2d::info::get_space_rect;
use ksp2d::newton_body::NewtonBody;
use ksp2d::rocket::PlayerInput;
use ksp2d::tracker::closest_celestial;
use ksp2d::vec2::Vec2Fx;
use ksp2d::world::Entry;
use ksp2d::world::World;
use ksp2d::Dt;
use ksp2d::SimError;
use ksp2d::POS_LIMIT_FX;

fn plain_body(mass: i128, px: i128, py: i128) -> NewtonBody {
    NewtonBody::new(mass, Vec2Fx { x: px, y: py }, Vec2Fx { x: 0, y: 0 }, 0, 0).unwrap()
}

fn celestial(radius_m: i128) -> CelestialBody {
    CelestialBody::new(CelestialBodyType::Planet, radius_m * FX_ONE).unwrap()
}

#[test]
fn malformed_bodies_are_rejected_at_construction() {
    let p = Vec2Fx { x: 0, y: 0 };
    let z = Vec2Fx { x: 0, y: 0 };
    assert_eq!(NewtonBody::new(0, p, z, 0, 0).unwrap_err(), SimError::ConfigurationError);
    assert_eq!(NewtonBody::new(-5, p, z, 0, 0).unwrap_err(), SimError::ConfigurationError);
    assert_eq!(
        NewtonBody::new(1, Vec2Fx { x: POS_LIMIT_FX + 1, y: 0 }, z, 0, 0).unwrap_err(),
        SimError::ConfigurationError
    );
    assert_eq!(
        CelestialBody::new(CelestialBodyType::Star, -1).unwrap_err(),
        SimError::ConfigurationError
    );
}

#[test]
fn dangling_tracker_link_is_rejected() {
    let mut w = World::new();
    let r = w.push_body(plain_body(1_000, 0, 0), None, None, Some(3));
    assert_eq!(r.unwrap_err(), SimError::ConfigurationError);
    // Linking to a non-celestial entry is just as dangling.
    w.push_body(plain_body(1_000, 0, 0), None, None, None).unwrap();
    let r = w.push_body(plain_body(1_000, FX_ONE, 0), None, None, Some(0));
    assert_eq!(r.unwrap_err(), SimError::ConfigurationError);
}

#[test]
fn tick_fails_and_preserves_store_on_degenerate_pair() {
    let mut w = World::new();
    w.push_body(plain_body(1_000_000, 0, 0), None, None, None).unwrap();
    w.push_body(plain_body(1_000_000, 0, 0), None, None, None).unwrap();
    let before_first = w.entries[0].n_body;
    let before_second = w.entries[1].n_body;
    let none: Vec<PlayerInput> = Vec::new();
    assert_eq!(w.tick(&Dt(FX_ONE), &none), Err(SimError::NumericalError));
    assert_eq!(w.entries[0].n_body, before_first);
    assert_eq!(w.entries[1].n_body, before_second);
}

#[test]
fn tracker_picks_the_nearest_celestial_with_stable_ties() {
    let mut entries: Vec<Entry> = Vec::new();
    let far = Entry {
        n_body: plain_body(1_000, 1_000 * FX_ONE, 0),
        celestial: Some(celestial(10)),
        rocket: None,
        ccb: None,
        landing: None,
    };
    let near = Entry {
        n_body: plain_body(1_000, 100 * FX_ONE, 0),
        celestial: Some(celestial(10)),
        rocket: None,
        ccb: None,
        landing: None,
    };
    let mirror = Entry {
        n_body: plain_body(1_000, -100 * FX_ONE, 0),
        celestial: Some(celestial(10)),
        rocket: None,
        ccb: None,
        landing: None,
    };
    entries.push(far);
    entries.push(near);
    entries.push(mirror);
    let link = closest_celestial(&entries, Vec2Fx { x: 0, y: 0 }).unwrap();
    // Entries 1 and 2 are equally distant; the first encountered wins.
    assert_eq!(link.id, 1);
}

#[test]
fn empty_celestial_catalogue_is_a_lookup_error() {
    let mut entries: Vec<Entry> = Vec::new();
    entries.push(Entry {
        n_body: plain_body(1_000, 50 * FX_ONE, 0),
        celestial: None,
        rocket: None,
        ccb: None,
        landing: None,
    });
    let r = closest_celestial(&entries, Vec2Fx { x: 0, y: 0 });
    assert_eq!(r.unwrap_err(), SimError::LookupError);
}

#[test]
fn flight_info_reports_whole_metre_speed() {
    let b = NewtonBody::new(
        1_000,
        Vec2Fx { x: 0, y: 0 },
        Vec2Fx { x: 3 * FX_ONE, y: 4 * FX_ONE },
        0,
        0,
    )
    .unwrap();
    let mut info = FlightInfo { delta: 0, distance: 7 };
    flight_info(&b, &mut info);
    assert_eq!(info.delta, 5);
    assert_eq!(info.distance, 7);
}

#[test]
fn performance_info_reports_fps_floor() {
    let mut info = PerformanceInfo { fps: 0, frame_time: 0 };
    update_info(&Dt(FX_ONE / 60), 1234, &mut info);
    assert_eq!(info.fps, 60);
    assert_eq!(info.frame_time, 1234);
    update_info(&Dt(0), 9, &mut info);
    assert_eq!(info.fps, 0);
}

#[test]
fn camera_mode_toggles() {
    assert_eq!(CameraMode::Default.switched(), CameraMode::Landing);
    assert_eq!(CameraMode::Landing.switched(), CameraMode::Default);
}

#[test]
fn space_rect_squares_and_pads() {
    let (tex, padded) = get_space_rect(1280, 720);
    assert_eq!((tex.x, tex.y, tex.w, tex.h), (0, 0, 720, 720));
    assert_eq!((padded.x, padded.y, padded.w, padded.h), (280, 0, 720, 720));
    let (tex, padded) = get_space_rect(600, 800);
    assert_eq!((tex.w, padded.y), (600, 100));
    let (tex, padded) = get_space_rect(500, 500);
    assert_eq!(tex, padded);
}

#[test]
fn tracker_order_is_independent_of_side() {
    // One celestial 10.99 m from the probe on the positive side, one
    // 9.01 m away on the negative side: the nearer one wins, and the pick
    // is unchanged when the whole scene is mirrored.
    let probe = Vec2Fx { x: 0, y: 0 };
    for sign in [1i128, -1i128] {
        let mut entries: Vec<Entry> = Vec::new();
        entries.push(Entry {
            n_body: plain_body(1_000, sign * (10 * FX_ONE + 99 * FX_ONE / 100), 0),
            celestial: Some(celestial(1)),
            rocket: None,
            ccb: None,
            landing: None,
        });
        entries.push(Entry {
            n_body: plain_body(1_000, -sign * (9 * FX_ONE + FX_ONE / 100), 0),
            celestial: Some(celestial(1)),
            rocket: None,
            ccb: None,
            landing: None,
        });
        let link = closest_celestial(&entries, probe).unwrap();
        assert_eq!(link.id, 1, "nearer body must win on either side");
    }
}
