use ksp2d::collision::circle_aabb;
use ksp2d::collision::is_aabb_intersected;
use ksp2d::collision::is_point_in_circle;
use ksp2d::collision::is_segment_intersects_circle;
use ksp2d::collision::is_segment_intersects_circle_perp_method;
use ksp2d::collision::triangle_aabb;
use ksp2d::vec2::Vec2Fx;

fn v(x: i128, y: i128) -> Vec2Fx {
    Vec2Fx { x, y }
}

#[test]
fn circle_contains_its_centre() {
    assert!(is_point_in_circle(v(5, -3), v(5, -3), 0));
    assert!(is_point_in_circle(v(5, -3), v(5, -3), 7));
    assert!(is_point_in_circle(v(0, 0), v(0, 0), 1000000));
}

#[test]
fn point_in_circle_boundary_and_outside() {
    assert!(is_point_in_circle(v(3, 4), v(0, 0), 5));
    assert!(!is_point_in_circle(v(3, 4), v(0, 0), 4));
    assert!(is_point_in_circle(v(-3, -4), v(0, 0), 5));
}

#[test]
fn segment_through_circle_detected() {
    // Horizontal segment passing straight through a circle at the origin.
    assert!(is_segment_intersects_circle(v(-10, 0), v(10, 0), v(0, 0), 2));
    // Chord without either endpoint inside.
    assert!(is_segment_intersects_circle_perp_method(v(-10, 1), v(10, 1), v(0, 0), 3));
    // Far away segment misses.
    assert!(!is_segment_intersects_circle(v(-10, 50), v(10, 50), v(0, 0), 3));
    // Segment pointing at the circle but stopping short.
    assert!(!is_segment_intersects_circle(v(-10, 0), v(-6, 0), v(0, 0), 3));
}

#[test]
fn segment_circle_symmetric_under_endpoint_swap() {
    let cases = [
        (v(-10, 1), v(10, 1), v(0, 0), 3),
        (v(-10, 50), v(10, 50), v(0, 0), 3),
        (v(2, 2), v(9, 9), v(4, 5), 2),
        (v(0, 0), v(0, 0), v(1, 1), 5),
        (v(-7, 3), v(8, -2), v(1, 1), 4),
    ];
    for (p1, p2, c, r) in cases {
        assert_eq!(
            is_segment_intersects_circle(p1, p2, c, r),
            is_segment_intersects_circle(p2, p1, c, r)
        );
    }
}

#[test]
fn degenerate_segment_is_endpoint_test_only() {
    // A zero-length segment intersects exactly when the point is inside.
    assert!(is_segment_intersects_circle(v(1, 1), v(1, 1), v(0, 0), 2));
    assert!(!is_segment_intersects_circle(v(5, 5), v(5, 5), v(0, 0), 2));
}

#[test]
fn aabb_self_intersection() {
    assert!(is_aabb_intersected(v(0, 0), v(4, 4), v(0, 0), v(4, 4)));
    assert!(is_aabb_intersected(v(-3, -9), v(12, 2), v(-3, -9), v(12, 2)));
}

#[test]
fn aabb_disjoint_and_touching() {
    assert!(!is_aabb_intersected(v(0, 0), v(1, 1), v(2, 2), v(3, 3)));
    // Touching edges count as intersecting.
    assert!(is_aabb_intersected(v(0, 0), v(1, 1), v(1, 1), v(2, 2)));
}

#[test]
fn triangle_aabb_exact() {
    let (lo, hi) = triangle_aabb(v(3, -1), v(-2, 5), v(7, 0));
    assert_eq!((lo.x, lo.y), (-2, -1));
    assert_eq!((hi.x, hi.y), (7, 5));
}

#[test]
fn circle_aabb_exact() {
    let (lo, hi) = circle_aabb(v(10, -4), 3);
    assert_eq!((lo.x, lo.y), (7, -7));
    assert_eq!((hi.x, hi.y), (13, -1));
}
