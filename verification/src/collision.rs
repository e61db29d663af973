//! Proximity geometry: point-in-circle, segment-circle intersection and
//! axis-aligned bounding boxes.
//!
//! These are scale-free predicates on integer coordinates: the caller picks
//! the unit (whole metres, screen pixels), and every test is exact — the
//! segment test in particular multiplies through by the squared segment
//! length instead of dividing, so no rounding ever decides an intersection.
//! Coordinates and radii stay within `GEOM_LIMIT` so the fourth-degree
//! products fit in 128 bits.

use vstd::prelude::*;

verus! {

use crate::fixed::lemma_mul_bound;
use crate::vec2::Vec2Fx;

/// Magnitude cap on geometry coordinates and radii: `2^30` units.
pub const GEOM_LIMIT: i128 = 0x40000000;

/// All four coordinates of a point pair within the geometry envelope.
pub open spec fn spec_geom_bounded(p: Vec2Fx) -> bool {
    &&& -GEOM_LIMIT <= p.x <= GEOM_LIMIT
    &&& -GEOM_LIMIT <= p.y <= GEOM_LIMIT
}

/// Whether `p` lies on or inside the circle at `center` of radius `radius`:
/// squared distance at most squared radius.
pub open spec fn spec_point_in_circle(p: Vec2Fx, center: Vec2Fx, radius: int) -> bool {
    (p.x - center.x) * (p.x - center.x) + (p.y - center.y) * (p.y - center.y) <= radius * radius
}

/// The perpendicular-foot test on the segment `p1 p2`: the segment is not a
/// point, the foot of `center` on the carrying line falls within the
/// segment's span, and the line's distance to `center` is at most `radius`.
/// Every comparison is multiplied through by the squared segment length.
pub open spec fn spec_segment_chord(p1: Vec2Fx, p2: Vec2Fx, center: Vec2Fx, radius: int) -> bool {
    let vx = p2.x - p1.x;
    let vy = p2.y - p1.y;
    let wx = center.x - p1.x;
    let wy = center.y - p1.y;
    let len = vx * vx + vy * vy;
    let dot = wx * vx + wy * vy;
    &&& len > 0
    &&& 0 <= dot <= len
    &&& (wx * wx + wy * wy) * len - dot * dot <= radius * radius * len
}

/// Whether the segment `p1 p2` meets the circle: an endpoint inside, or a
/// chord through the interior found by the perpendicular-foot test.
pub open spec fn spec_segment_intersects_circle(
    p1: Vec2Fx,
    p2: Vec2Fx,
    center: Vec2Fx,
    radius: int,
) -> bool {
    ||| spec_point_in_circle(p1, center, radius)
    ||| spec_point_in_circle(p2, center, radius)
    ||| spec_segment_chord(p1, p2, center, radius)
}

/// Whether two axis-aligned boxes, each given as (min corner, max corner),
/// overlap: the separating-axis test on both axes.
pub open spec fn spec_aabb_intersect(a_lt: Vec2Fx, a_rb: Vec2Fx, b_lt: Vec2Fx, b_rb: Vec2Fx) -> bool {
    a_rb.x >= b_lt.x && a_rb.y >= b_lt.y && b_rb.x >= a_lt.x && b_rb.y >= a_lt.y
}

/// Point-in-circle, exactly as the specification states it.
pub fn is_point_in_circle(p: Vec2Fx, c_center: Vec2Fx, c_radius: i128) -> (r: bool)
    requires
        spec_geom_bounded(p),
        spec_geom_bounded(c_center),
        0 <= c_radius <= GEOM_LIMIT,
    ensures
        r == spec_point_in_circle(p, c_center, c_radius as int),
{
    let dx: i128 = p.x - c_center.x;
    let dy: i128 = p.y - c_center.y;
    proof {
        lemma_mul_bound(dx as int, dx as int, 0x80000000, 0x80000000);
        lemma_mul_bound(dy as int, dy as int, 0x80000000, 0x80000000);
        lemma_mul_bound(c_radius as int, c_radius as int, 0x40000000, 0x40000000);
    }
    dx * dx + dy * dy <= c_radius * c_radius
}

/// The perpendicular-foot chord test, exactly as the specification states it.
pub fn is_segment_intersects_circle_perp_method(
    seg_p1: Vec2Fx,
    seg_p2: Vec2Fx,
    c_center: Vec2Fx,
    c_radius: i128,
) -> (r: bool)
    requires
        spec_geom_bounded(seg_p1),
        spec_geom_bounded(seg_p2),
        spec_geom_bounded(c_center),
        0 <= c_radius <= GEOM_LIMIT,
    ensures
        r == spec_segment_chord(seg_p1, seg_p2, c_center, c_radius as int),
{
    let vx: i128 = seg_p2.x - seg_p1.x;
    let vy: i128 = seg_p2.y - seg_p1.y;
    let wx: i128 = c_center.x - seg_p1.x;
    let wy: i128 = c_center.y - seg_p1.y;
    proof {
        lemma_mul_bound(vx as int, vx as int, 0x80000000, 0x80000000);
        lemma_mul_bound(vy as int, vy as int, 0x80000000, 0x80000000);
        lemma_mul_bound(wx as int, wx as int, 0x80000000, 0x80000000);
        lemma_mul_bound(wy as int, wy as int, 0x80000000, 0x80000000);
        lemma_mul_bound(wx as int, vx as int, 0x80000000, 0x80000000);
        lemma_mul_bound(wy as int, vy as int, 0x80000000, 0x80000000);
    }
    let len: i128 = vx * vx + vy * vy;
    let dot: i128 = wx * vx + wy * vy;
    if len <= 0 {
        return false;
    }
    if dot < 0 || dot > len {
        return false;
    }
    let wsq: i128 = wx * wx + wy * wy;
    proof {
        lemma_mul_bound(wsq as int, len as int, 0x8000000000000000, 0x8000000000000000);
        lemma_mul_bound(dot as int, dot as int, 0x8000000000000000, 0x8000000000000000);
        lemma_mul_bound(c_radius as int, c_radius as int, 0x40000000, 0x40000000);
        lemma_mul_bound(
            (c_radius as int) * (c_radius as int),
            len as int,
            0x1000000000000000,
            0x8000000000000000,
        );
    }
    wsq * len - dot * dot <= c_radius * c_radius * len
}

/// Segment-circle intersection: an endpoint inside the circle, or a chord
/// found by the perpendicular-foot test.
pub fn is_segment_intersects_circle(
    seg_p1: Vec2Fx,
    seg_p2: Vec2Fx,
    c_center: Vec2Fx,
    c_radius: i128,
) -> (r: bool)
    requires
        spec_geom_bounded(seg_p1),
        spec_geom_bounded(seg_p2),
        spec_geom_bounded(c_center),
        0 <= c_radius <= GEOM_LIMIT,
    ensures
        r == spec_segment_intersects_circle(seg_p1, seg_p2, c_center, c_radius as int),
{
    is_point_in_circle(seg_p1, c_center, c_radius) || is_point_in_circle(
        seg_p2,
        c_center,
        c_radius,
    ) || is_segment_intersects_circle_perp_method(seg_p1, seg_p2, c_center, c_radius)
}

/// Axis-aligned bounding box of a triangle, as (min corner, max corner).
pub fn triangle_aabb(p1: Vec2Fx, p2: Vec2Fx, p3: Vec2Fx) -> (r: (Vec2Fx, Vec2Fx))
    ensures
        r.0.x <= p1.x && r.0.x <= p2.x && r.0.x <= p3.x,
        r.0.y <= p1.y && r.0.y <= p2.y && r.0.y <= p3.y,
        r.1.x >= p1.x && r.1.x >= p2.x && r.1.x >= p3.x,
        r.1.y >= p1.y && r.1.y >= p2.y && r.1.y >= p3.y,
        (r.0.x == p1.x || r.0.x == p2.x || r.0.x == p3.x),
        (r.0.y == p1.y || r.0.y == p2.y || r.0.y == p3.y),
        (r.1.x == p1.x || r.1.x == p2.x || r.1.x == p3.x),
        (r.1.y == p1.y || r.1.y == p2.y || r.1.y == p3.y),
{
    let min_x: i128 = if p1.x <= p2.x && p1.x <= p3.x {
        p1.x
    } else if p2.x <= p3.x {
        p2.x
    } else {
        p3.x
    };
    let min_y: i128 = if p1.y <= p2.y && p1.y <= p3.y {
        p1.y
    } else if p2.y <= p3.y {
        p2.y
    } else {
        p3.y
    };
    let max_x: i128 = if p1.x >= p2.x && p1.x >= p3.x {
        p1.x
    } else if p2.x >= p3.x {
        p2.x
    } else {
        p3.x
    };
    let max_y: i128 = if p1.y >= p2.y && p1.y >= p3.y {
        p1.y
    } else if p2.y >= p3.y {
        p2.y
    } else {
        p3.y
    };
    (Vec2Fx { x: min_x, y: min_y }, Vec2Fx { x: max_x, y: max_y })
}

/// Axis-aligned bounding box of a circle, as (min corner, max corner).
pub fn circle_aabb(c_center: Vec2Fx, c_radius: i128) -> (r: (Vec2Fx, Vec2Fx))
    requires
        spec_geom_bounded(c_center),
        0 <= c_radius <= GEOM_LIMIT,
    ensures
        r.0.x == c_center.x - c_radius && r.0.y == c_center.y - c_radius,
        r.1.x == c_center.x + c_radius && r.1.y == c_center.y + c_radius,
{
    (
        Vec2Fx { x: c_center.x - c_radius, y: c_center.y - c_radius },
        Vec2Fx { x: c_center.x + c_radius, y: c_center.y + c_radius },
    )
}

/// Separating-axis overlap test between two boxes.
pub fn is_aabb_intersected(a_lt: Vec2Fx, a_rb: Vec2Fx, b_lt: Vec2Fx, b_rb: Vec2Fx) -> (r: bool)
    ensures
        r == spec_aabb_intersect(a_lt, a_rb, b_lt, b_rb),
{
    a_rb.x >= b_lt.x && a_rb.y >= b_lt.y && b_rb.x >= a_lt.x && b_rb.y >= a_lt.y
}

/// A circle contains its own centre, whatever the radius.
pub proof fn lemma_point_in_circle_center(center: Vec2Fx, radius: int)
    requires
        radius >= 0,
    ensures
        spec_point_in_circle(center, center, radius),
{
    assert(0 <= radius * radius) by (nonlinear_arith)
        requires
            radius >= 0,
    ;
}

/// The segment-circle test does not depend on the order of the two segment
/// endpoints.
pub proof fn lemma_segment_circle_symmetric(p1: Vec2Fx, p2: Vec2Fx, center: Vec2Fx, radius: int)
    ensures
        spec_segment_intersects_circle(p1, p2, center, radius)
            == spec_segment_intersects_circle(p2, p1, center, radius),
{
    let vx: int = p2.x - p1.x;
    let vy: int = p2.y - p1.y;
    let wx: int = center.x - p1.x;
    let wy: int = center.y - p1.y;
    let ux: int = center.x - p2.x;
    let uy: int = center.y - p2.y;
    let len: int = vx * vx + vy * vy;
    let dot: int = wx * vx + wy * vy;
    let len2: int = (p1.x - p2.x) * (p1.x - p2.x) + (p1.y - p2.y) * (p1.y - p2.y);
    let dot2: int = ux * (p1.x - p2.x) + uy * (p1.y - p2.y);
    assert(len2 == len && dot2 == len - dot) by (nonlinear_arith)
        requires
            vx == p2.x - p1.x,
            vy == p2.y - p1.y,
            wx == center.x - p1.x,
            wy == center.y - p1.y,
            ux == center.x - p2.x,
            uy == center.y - p2.y,
            len == vx * vx + vy * vy,
            dot == wx * vx + wy * vy,
            len2 == (p1.x - p2.x) * (p1.x - p2.x) + (p1.y - p2.y) * (p1.y - p2.y),
            dot2 == ux * (p1.x - p2.x) + uy * (p1.y - p2.y),
    ;
    assert((ux * ux + uy * uy) * len - dot2 * dot2 == (wx * wx + wy * wy) * len - dot * dot)
        by (nonlinear_arith)
        requires
            ux == wx - vx,
            uy == wy - vy,
            len == vx * vx + vy * vy,
            dot == wx * vx + wy * vy,
            dot2 == len - dot,
    ;
}

/// A box, tested against itself, always intersects.
pub proof fn lemma_aabb_self_intersect(lt: Vec2Fx, rb: Vec2Fx)
    requires
        lt.x <= rb.x,
        lt.y <= rb.y,
    ensures
        spec_aabb_intersect(lt, rb, lt, rb),
{
}

} // verus!
