use ksp2d::fixed::FRAC_PI_8_FX;
use ksp2d::fixed::FX_ONE;
use ksp2d::newton_body::NewtonBody;
use ksp2d::rocket::update_positions;
use ksp2d::rocket::Engine;
use ksp2d::rocket::PlayerInput;
use ksp2d::rocket::Rocket;
use ksp2d::rocket::AVERSE_TRUST;
use ksp2d::vec2::Vec2Fx;
use ksp2d::Dt;

fn rocket_body() -> NewtonBody {
    NewtonBody::new(
        2_965_000,
        Vec2Fx { x: FX_ONE, y: FX_ONE },
        Vec2Fx { x: 0, y: 0 },
        0,
        0,
    )
    .unwrap()
}

#[test]
fn throttle_clamps_to_unit_interval() {
    let mut e = Engine { vector: Vec2Fx { x: 0, y: -AVERSE_TRUST }, throttle: 0 };
    e.set_throttle(FX_ONE * 3);
    assert_eq!(e.throttle, FX_ONE);
    e.set_throttle(-5);
    assert_eq!(e.throttle, 0);
    e.change_throttle(FX_ONE / 4);
    assert_eq!(e.throttle, FX_ONE / 4);
    e.change_throttle(FX_ONE);
    assert_eq!(e.throttle, FX_ONE);
    e.disable();
    assert_eq!(e.throttle, 0);
    e.full();
    assert_eq!(e.throttle, FX_ONE);
}

#[test]
fn engine_trust_scales_with_throttle() {
    let mut e = Engine { vector: Vec2Fx { x: 0, y: -AVERSE_TRUST }, throttle: 0 };
    assert_eq!(e.trust(), Vec2Fx { x: 0, y: 0 });
    e.full();
    assert_eq!(e.trust(), Vec2Fx { x: 0, y: -AVERSE_TRUST });
    e.set_throttle(FX_ONE / 2);
    assert_eq!(e.trust().y, -AVERSE_TRUST / 2);
}

#[test]
fn fresh_rocket_is_balanced() {
    let r = Rocket::new();
    assert_eq!(r.trust(), Vec2Fx { x: 0, y: 0 });
    assert_eq!(r.engine_averse.vector.y, -AVERSE_TRUST);
    assert_eq!(r.engine_reverse.vector.y, AVERSE_TRUST);
    assert_eq!(r.engine_left.vector.x, AVERSE_TRUST);
    assert_eq!(r.engine_right.vector.x, -AVERSE_TRUST);
}

#[test]
fn rotate_intent_accumulates_angular_velocity() {
    let mut rk = Rocket::new();
    let mut b = rocket_body();
    let dt = Dt(FX_ONE);
    let input = vec![PlayerInput::RotateRight];
    update_positions(&mut rk, &mut b, &dt, &input);
    assert_eq!(b.angular_vel, FRAC_PI_8_FX);
    // Held across another tick it keeps accumulating; the spin persists
    // after release by design.
    update_positions(&mut rk, &mut b, &dt, &input);
    assert_eq!(b.angular_vel, 2 * FRAC_PI_8_FX);
    let released: Vec<PlayerInput> = Vec::new();
    update_positions(&mut rk, &mut b, &dt, &released);
    assert_eq!(b.angular_vel, 2 * FRAC_PI_8_FX);
}

#[test]
fn forward_intent_ramps_the_fore_throttle() {
    let mut rk = Rocket::new();
    let mut b = rocket_body();
    let dt = Dt(FX_ONE / 4);
    let input = vec![PlayerInput::MoveForward];
    update_positions(&mut rk, &mut b, &dt, &input);
    assert_eq!(rk.engine_averse.throttle, FX_ONE / 4);
    update_positions(&mut rk, &mut b, &dt, &input);
    assert_eq!(rk.engine_averse.throttle, FX_ONE / 2);
}

#[test]
fn backward_intent_bleeds_fore_throttle_before_opening_aft() {
    let mut rk = Rocket::new();
    let mut b = rocket_body();
    let dt = Dt(FX_ONE / 2);
    update_positions(&mut rk, &mut b, &dt, &vec![PlayerInput::MoveForward]);
    assert_eq!(rk.engine_averse.throttle, FX_ONE / 2);
    // First backward tick only bleeds the fore engine.
    update_positions(&mut rk, &mut b, &dt, &vec![PlayerInput::MoveBackward]);
    assert_eq!(rk.engine_averse.throttle, 0);
    assert_eq!(rk.engine_reverse.throttle, 0);
    // Once the fore engine is shut, backward opens the aft engine fully.
    update_positions(&mut rk, &mut b, &dt, &vec![PlayerInput::MoveBackward]);
    assert_eq!(rk.engine_reverse.throttle, FX_ONE);
}

#[test]
fn lateral_intents_prefer_left_when_both_held() {
    let mut rk = Rocket::new();
    let mut b = rocket_body();
    let dt = Dt(FX_ONE);
    let input = vec![PlayerInput::MoveLeft, PlayerInput::MoveRight];
    update_positions(&mut rk, &mut b, &dt, &input);
    assert_eq!(rk.engine_left.throttle, 0);
    assert_eq!(rk.engine_right.throttle, FX_ONE);
}

#[test]
fn thrust_force_points_along_engine_axis_at_zero_angle() {
    let mut rk = Rocket::new();
    let mut b = rocket_body();
    let dt = Dt(FX_ONE);
    // Aft engine full: local force (0, +T).
    update_positions(&mut rk, &mut b, &dt, &vec![PlayerInput::MoveBackward]);
    let f = update_positions(&mut rk, &mut b, &dt, &vec![PlayerInput::MoveBackward]);
    // At angle 0 the rotation is cos ~ 1, sin == 0: the force keeps its
    // axis exactly and its magnitude within the polynomial's error.
    assert_eq!(rk.engine_reverse.throttle, FX_ONE);
    assert_eq!(f.x, 0);
    assert!(f.y > 0);
    let rel_err = (f.y - AVERSE_TRUST).abs() as f64 / AVERSE_TRUST as f64;
    assert!(rel_err < 1e-3, "force magnitude off by {}", rel_err);
}
