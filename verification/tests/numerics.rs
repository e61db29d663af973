use ksp2d::fixed::div_floor;
use ksp2d::fixed::fx_scale_down;
use ksp2d::fixed::icbrt;
use ksp2d::fixed::isqrt;
use ksp2d::fixed::mod_euclid;
use ksp2d::fixed::mul_fx;
use ksp2d::fixed::FX_ONE;
use ksp2d::fixed::TAU_FX;
use ksp2d::newton_body::advance_angle;
use ksp2d::vec2::dist_sq_m;
use ksp2d::vec2::scale_to_len;
use ksp2d::vec2::Vec2Fx;

#[test]
fn floor_division_rounds_toward_negative_infinity() {
    assert_eq!(div_floor(7, 2), 3);
    assert_eq!(div_floor(-7, 2), -4);
    assert_eq!(div_floor(-8, 2), -4);
    assert_eq!(div_floor(0, 5), 0);
}

#[test]
fn euclidean_remainder_is_nonnegative() {
    assert_eq!(mod_euclid(7, 3), 1);
    assert_eq!(mod_euclid(-7, 3), 2);
    assert_eq!(mod_euclid(-9, 3), 0);
    assert_eq!(mod_euclid(2, 5), 2);
}

#[test]
fn integer_square_root_edges() {
    assert_eq!(isqrt(0), 0);
    assert_eq!(isqrt(1), 1);
    assert_eq!(isqrt(3), 1);
    assert_eq!(isqrt(4), 2);
    assert_eq!(isqrt(15), 3);
    assert_eq!(isqrt(16), 4);
    assert_eq!(isqrt(10_000_000_000_000_000_000_000), 100_000_000_000);
}

#[test]
fn integer_cube_root_edges() {
    assert_eq!(icbrt(0), 0);
    assert_eq!(icbrt(1), 1);
    assert_eq!(icbrt(7), 1);
    assert_eq!(icbrt(8), 2);
    assert_eq!(icbrt(26), 2);
    assert_eq!(icbrt(27), 3);
    assert_eq!(icbrt(1_000_000_000_000_000_000_000), 10_000_000);
}

#[test]
fn fixed_point_products_scale_back() {
    // 1.5 * 2.0 == 3.0 in fixed point.
    let three_halves = FX_ONE + FX_ONE / 2;
    assert_eq!(mul_fx(three_halves, 2 * FX_ONE), 3 * FX_ONE);
    assert_eq!(fx_scale_down(10 * FX_ONE + 1), 10);
    // Negative products floor downward.
    assert_eq!(mul_fx(-three_halves, FX_ONE), -three_halves);
}

#[test]
fn metre_distance_squared_exact() {
    let a = Vec2Fx { x: 0, y: 0 };
    let b = Vec2Fx { x: 3 * FX_ONE, y: 4 * FX_ONE };
    assert_eq!(dist_sq_m(a, b), 25);
}

#[test]
fn scale_to_len_honours_requested_length() {
    // A 3-4-5 direction rescaled to length 500: exactly (300, 400).
    let q = scale_to_len(Vec2Fx { x: 3, y: 4 }, 500);
    assert_eq!((q.x, q.y), (300, 400));
    // A negative direction keeps its signs.
    let q = scale_to_len(Vec2Fx { x: -3, y: 4 }, 500);
    assert_eq!((q.x, q.y), (-300, 400));
}

#[test]
fn orientation_stays_normalized() {
    // One radian per second over one second from just below a full turn
    // wraps around instead of growing.
    let a = advance_angle(TAU_FX - 5, FX_ONE, FX_ONE);
    assert_eq!(a, (TAU_FX - 5 + FX_ONE) % TAU_FX);
    assert!(0 <= a && a < TAU_FX);
    // Negative angular velocity wraps the other way.
    let b = advance_angle(2, -FX_ONE, FX_ONE);
    assert!(0 <= b && b < TAU_FX);
    assert_eq!(b, TAU_FX + 2 - FX_ONE);
}

#[test]
fn orientation_bounded_over_many_updates() {
    let mut angle: i128 = 0;
    for k in 0..1000 {
        let w = if k % 2 == 0 { 7 * FX_ONE } else { -3 * FX_ONE };
        angle = advance_angle(angle, w, FX_ONE / 4);
        assert!(0 <= angle && angle < TAU_FX);
    }
}

#[test]
fn vector_componentwise_operations() {
    let a = Vec2Fx { x: 3, y: -4 };
    let b = Vec2Fx { x: 10, y: 20 };
    let z = Vec2Fx::zero();
    assert_eq!(a.add(b), Vec2Fx { x: 13, y: 16 });
    assert_eq!(b.sub(a), Vec2Fx { x: 7, y: 24 });
    assert_eq!(a.neg(), Vec2Fx { x: -3, y: 4 });
    assert_eq!(a.add(z), a);
}
