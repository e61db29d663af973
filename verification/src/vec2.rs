//! Two-dimensional vectors of fixed-point scalars, and the squared-distance
//! kernel shared by the gravity integrator, the closest-body tracker and the
//! landing detector.

use vstd::prelude::*;

verus! {

use crate::fixed::div_floor;
use crate::fixed::div_trunc;
use crate::fixed::isqrt;
use crate::fixed::FX_ONE;

/// A 2D vector; both components are 64.32 fixed-point scalars.
#[derive(Clone, Copy, Debug, PartialEq, Eq, Structural)]
pub struct Vec2Fx {
    pub x: i128,
    pub y: i128,
}

impl Vec2Fx {
    /// The zero vector.
    pub fn zero() -> (r: Vec2Fx)
        ensures
            r.x == 0 && r.y == 0,
    {
        Vec2Fx { x: 0, y: 0 }
    }

    /// Squared Euclidean norm, as a mathematical integer.
    pub open spec fn norm_sq(self) -> int {
        self.x * self.x + self.y * self.y
    }

    /// Componentwise sum.
    pub fn add(self, other: Vec2Fx) -> (r: Vec2Fx)
        requires
            i128::MIN <= self.x + other.x <= i128::MAX,
            i128::MIN <= self.y + other.y <= i128::MAX,
        ensures
            r.x == self.x + other.x,
            r.y == self.y + other.y,
    {
        Vec2Fx { x: self.x + other.x, y: self.y + other.y }
    }

    /// Componentwise difference.
    pub fn sub(self, other: Vec2Fx) -> (r: Vec2Fx)
        requires
            i128::MIN <= self.x - other.x <= i128::MAX,
            i128::MIN <= self.y - other.y <= i128::MAX,
        ensures
            r.x == self.x - other.x,
            r.y == self.y - other.y,
    {
        Vec2Fx { x: self.x - other.x, y: self.y - other.y }
    }

    /// Componentwise negation.
    pub fn neg(self) -> (r: Vec2Fx)
        requires
            self.x > i128::MIN,
            self.y > i128::MIN,
        ensures
            r.x == -self.x,
            r.y == -self.y,
    {
        Vec2Fx { x: -self.x, y: -self.y }
    }
}

/// A position inside the playing field: both coordinates within
/// `POS_LIMIT_FX` of the origin.
pub open spec fn spec_in_field(v: Vec2Fx) -> bool {
    &&& -crate::POS_LIMIT_FX <= v.x <= crate::POS_LIMIT_FX
    &&& -crate::POS_LIMIT_FX <= v.y <= crate::POS_LIMIT_FX
}

/// The whole-metre part of a fixed-point scalar, rounded toward zero:
/// `sign(v) * floor(|v| / 2^32)`. Rounding toward zero (rather than toward
/// negative infinity) keeps the metre part a function of the magnitude
/// alone, so mirrored displacements get mirrored metre parts and every
/// distance built on this is independent of direction.
pub open spec fn spec_metres(v: int) -> int {
    crate::fixed::spec_div_trunc(v, FX_ONE as int)
}

/// Squared distance between two positions, measured in whole metres:
/// each componentwise difference is truncated toward zero to whole metres
/// before squaring, so the value depends only on the magnitudes.
pub open spec fn spec_dist_sq_m(a: Vec2Fx, b: Vec2Fx) -> int {
    let dx = spec_metres(b.x - a.x);
    let dy = spec_metres(b.y - a.y);
    dx * dx + dy * dy
}

/// Componentwise differences stay within `2^91`, so their metre parts fit in
/// 60 bits and the squared distance fits in an `i128`.
pub open spec fn spec_delta_bounded(a: Vec2Fx, b: Vec2Fx) -> bool {
    &&& -0x80000000000000000000000int < b.x - a.x < 0x80000000000000000000000int
    &&& -0x80000000000000000000000int < b.y - a.y < 0x80000000000000000000000int
}

/// Squared distance in whole metres between two positions.
pub fn dist_sq_m(a: Vec2Fx, b: Vec2Fx) -> (r: i128)
    requires
        spec_delta_bounded(a, b),
    ensures
        r == spec_dist_sq_m(a, b),
        0 <= r <= 0x800000000000000000000000000000,
{
    let dx: i128 = div_trunc(b.x - a.x, FX_ONE);
    let dy: i128 = div_trunc(b.y - a.y, FX_ONE);
    proof {
        lemma_metre_delta_bound(b.x - a.x);
        lemma_metre_delta_bound(b.y - a.y);
        lemma_metre_square_bound(dx as int);
        lemma_metre_square_bound(dy as int);
    }
    dx * dx + dy * dy
}

/// Distance in whole metres between two positions: the floor of the square
/// root of `spec_dist_sq_m`.
pub fn dist_m(a: Vec2Fx, b: Vec2Fx) -> (r: i128)
    requires
        spec_delta_bounded(a, b),
    ensures
        0 <= r,
        r * r <= spec_dist_sq_m(a, b) < (r + 1) * (r + 1),
{
    let sq: i128 = dist_sq_m(a, b);
    let root: u128 = isqrt(sq as u128);
    root as i128
}

/// The square of a metre-sized difference is nonnegative and fits in 118 bits.
proof fn lemma_metre_square_bound(x: int)
    requires
        -0x800000000000000 <= x <= 0x800000000000000,
    ensures
        0 <= x * x <= 0x400000000000000000000000000000int,
{
    assert(0 <= x * x <= 0x400000000000000000000000000000int) by (nonlinear_arith)
        requires
            -0x800000000000000 <= x <= 0x800000000000000,
    ;
}

/// The vector `v` rescaled to length `r`: each component is
/// `sign * floor(|component| * r / |v|)`, with `|v|` the floor square root
/// of the squared norm.
pub open spec fn spec_scale_to_len(v: Vec2Fx, r: int) -> (int, int) {
    let d = crate::fixed::spec_isqrt(v.norm_sq());
    (crate::fixed::spec_project(r, v.x as int, d), crate::fixed::spec_project(r, v.y as int, d))
}

/// Rescales a nonzero direction vector to the requested length. The length
/// is honoured almost exactly: see `lemma_scale_to_len_norm`.
pub fn scale_to_len(v: Vec2Fx, r: i128) -> (q: Vec2Fx)
    requires
        1 <= v.norm_sq(),
        -0x200000000 <= v.x <= 0x200000000,
        -0x200000000 <= v.y <= 0x200000000,
        0 <= r <= crate::POS_LIMIT_FX,
    ensures
        q.x == spec_scale_to_len(v, r as int).0,
        q.y == spec_scale_to_len(v, r as int).1,
        -r <= q.x <= r,
        -r <= q.y <= r,
{
    proof {
        crate::fixed::lemma_mul_bound(v.x as int, v.x as int, 0x200000000, 0x200000000);
        crate::fixed::lemma_mul_bound(v.y as int, v.y as int, 0x200000000, 0x200000000);
        assert(v.x as int * v.x as int >= 0 && v.y as int * v.y as int >= 0)
            by (nonlinear_arith);
    }
    let nsq: i128 = v.x * v.x + v.y * v.y;
    let d_wide: u128 = isqrt(nsq as u128);
    let d: i128 = d_wide as i128;
    let xa: i128 = if v.x >= 0 {
        v.x
    } else {
        -v.x
    };
    let ya: i128 = if v.y >= 0 {
        v.y
    } else {
        -v.y
    };
    proof {
        assert(d >= 1 && xa <= d && ya <= d && d <= 0x300000000) by (nonlinear_arith)
            requires
                d as int * d as int <= nsq,
                nsq < (d as int + 1) * (d as int + 1),
                nsq == v.x as int * v.x as int + v.y as int * v.y as int,
                nsq <= 0x80000000000000000,
                xa == v.x || xa as int == -(v.x as int),
                ya == v.y || ya as int == -(v.y as int),
                nsq >= 1,
                d >= 0,
                xa >= 0,
                ya >= 0,
        ;
        assert(0 <= r as int * xa as int <= r as int * d as int && 0 <= r as int * ya as int
            <= r as int * d as int) by (nonlinear_arith)
            requires
                0 <= xa <= d,
                0 <= ya <= d,
                0 <= r,
        ;
        crate::fixed::lemma_mul_bound(
            r as int,
            d as int,
            crate::POS_LIMIT_FX as int,
            0x300000000,
        );
        vstd::arithmetic::div_mod::lemma_div_is_ordered(
            r as int * xa as int,
            r as int * d as int,
            d as int,
        );
        vstd::arithmetic::div_mod::lemma_div_is_ordered(
            r as int * ya as int,
            r as int * d as int,
            d as int,
        );
        vstd::arithmetic::div_mod::lemma_div_multiples_vanish(r as int, d as int);
        vstd::arithmetic::div_mod::lemma_div_pos_is_pos(r as int * xa as int, d as int);
        vstd::arithmetic::div_mod::lemma_div_pos_is_pos(r as int * ya as int, d as int);
        assert(r as int * d as int == d as int * r as int) by (nonlinear_arith);
    }
    let qx: i128 = div_floor(r * xa, d);
    let qy: i128 = div_floor(r * ya, d);
    let sx: i128 = if v.x >= 0 {
        qx
    } else {
        -qx
    };
    let sy: i128 = if v.y >= 0 {
        qy
    } else {
        -qy
    };
    Vec2Fx { x: sx, y: sy }
}

/// How exactly `spec_scale_to_len` honours the requested length `r`: with
/// `d` the floor norm of `v`, the squared length of the result is at least
/// `r^2 - 4r` and at most `r^2 + 2 r^2 / d + 2` (the upper bound stated
/// multiplied through by `d`). For unit-scale directions (`d` near `2^32`)
/// the relative error is a few parts in `2^31`.
pub proof fn lemma_scale_to_len_norm(v: Vec2Fx, r: int)
    requires
        1 <= v.norm_sq(),
        0 <= r,
    ensures
        ({
            let d = crate::fixed::spec_isqrt(v.norm_sq());
            let qx = crate::fixed::spec_project(r, v.x as int, d);
            let qy = crate::fixed::spec_project(r, v.y as int, d);
            r * r - 4 * r <= qx * qx + qy * qy && d * (qx * qx + qy * qy) <= d * (r * r) + 2 * (
            r * r) + 2 * d
        }),
{
    let nsq: int = v.norm_sq();
    crate::fixed::lemma_isqrt_exists(nsq);
    let d: int = crate::fixed::spec_isqrt(nsq);
    let xa: int = if v.x >= 0 {
        v.x as int
    } else {
        -(v.x as int)
    };
    let ya: int = if v.y >= 0 {
        v.y as int
    } else {
        -(v.y as int)
    };
    assert(nsq == xa * xa + ya * ya && xa >= 0 && ya >= 0) by (nonlinear_arith)
        requires
            nsq == v.x * v.x + v.y * v.y,
            xa == if v.x >= 0 {
                v.x as int
            } else {
                -(v.x as int)
            },
            ya == if v.y >= 0 {
                v.y as int
            } else {
                -(v.y as int)
            },
    ;
    assert(d >= 1 && xa <= d && ya <= d) by (nonlinear_arith)
        requires
            d * d <= nsq,
            nsq < (d + 1) * (d + 1),
            nsq == xa * xa + ya * ya,
            nsq >= 1,
            d >= 0,
            xa >= 0,
            ya >= 0,
    ;
    let qx0: int = (r * xa) / d;
    let qy0: int = (r * ya) / d;
    let rx: int = (r * xa) % d;
    let ry: int = (r * ya) % d;
    vstd::arithmetic::div_mod::lemma_fundamental_div_mod(r * xa, d);
    vstd::arithmetic::div_mod::lemma_fundamental_div_mod(r * ya, d);
    vstd::arithmetic::div_mod::lemma_mod_division_less_than_divisor(r * xa, d);
    vstd::arithmetic::div_mod::lemma_mod_division_less_than_divisor(r * ya, d);
    let qx: int = crate::fixed::spec_project(r, v.x as int, d);
    let qy: int = crate::fixed::spec_project(r, v.y as int, d);
    assert(qx * qx == qx0 * qx0 && qy * qy == qy0 * qy0) by (nonlinear_arith)
        requires
            qx == qx0 || qx == -qx0,
            qy == qy0 || qy == -qy0,
    ;
    assert((d * qx0) * (d * qx0) == (r * xa - rx) * (r * xa - rx)) by (nonlinear_arith)
        requires
            d * qx0 == r * xa - rx,
    ;
    assert((d * qy0) * (d * qy0) == (r * ya - ry) * (r * ya - ry)) by (nonlinear_arith)
        requires
            d * qy0 == r * ya - ry,
    ;
    assert((d * qx0) * (d * qx0) == (d * d) * (qx0 * qx0) && (d * qy0) * (d * qy0) == (d * d) * (
    qy0 * qy0)) by (nonlinear_arith);
    assert((r * xa - rx) * (r * xa - rx) == (r * r) * (xa * xa) - 2 * r * (xa * rx) + rx * rx)
        by (nonlinear_arith);
    assert((r * ya - ry) * (r * ya - ry) == (r * r) * (ya * ya) - 2 * r * (ya * ry) + ry * ry)
        by (nonlinear_arith);
    assert(d * d * (qx0 * qx0 + qy0 * qy0) == r * r * nsq - 2 * r * (xa * rx) - 2 * r * (ya * ry)
        + rx * rx + ry * ry) by (nonlinear_arith)
        requires
            (d * d) * (qx0 * qx0) == (r * r) * (xa * xa) - 2 * r * (xa * rx) + rx * rx,
            (d * d) * (qy0 * qy0) == (r * r) * (ya * ya) - 2 * r * (ya * ry) + ry * ry,
            nsq == xa * xa + ya * ya,
    ;
    assert(0 <= xa * rx <= d * d && 0 <= ya * ry <= d * d) by (nonlinear_arith)
        requires
            0 <= xa <= d,
            0 <= ya <= d,
            0 <= rx < d,
            0 <= ry < d,
    ;
    assert(rx * rx + ry * ry <= 2 * (d * d) && rx * rx >= 0 && ry * ry >= 0)
        by (nonlinear_arith)
        requires
            0 <= rx < d,
            0 <= ry < d,
    ;
    assert(r * r * (d * d) <= r * r * nsq <= r * r * (d * d) + 2 * r * r * d)
        by (nonlinear_arith)
        requires
            d * d <= nsq,
            nsq < (d + 1) * (d + 1),
            0 <= r,
    ;
    assert(r * r - 4 * r <= qx0 * qx0 + qy0 * qy0) by (nonlinear_arith)
        requires
            d * d * (qx0 * qx0 + qy0 * qy0) == r * r * nsq - 2 * r * (xa * rx) - 2 * r * (
            ya * ry) + rx * rx + ry * ry,
            r * r * (d * d) <= r * r * nsq,
            0 <= xa * rx <= d * d,
            0 <= ya * ry <= d * d,
            rx * rx >= 0,
            ry * ry >= 0,
            0 <= r,
            d >= 1,
    ;
    assert(d * (qx0 * qx0 + qy0 * qy0) <= d * (r * r) + 2 * (r * r) + 2 * d)
        by (nonlinear_arith)
        requires
            d * d * (qx0 * qx0 + qy0 * qy0) == r * r * nsq - 2 * r * (xa * rx) - 2 * r * (
            ya * ry) + rx * rx + ry * ry,
            r * r * nsq <= r * r * (d * d) + 2 * r * r * d,
            0 <= xa * rx,
            0 <= ya * ry,
            rx * rx + ry * ry <= 2 * (d * d),
            0 <= r,
            d >= 1,
    ;
}

/// A difference of two in-field coordinates has a metre part within
/// 2e14 of zero.
pub proof fn lemma_metre_bound_field(d: int)
    requires
        -2 * (crate::POS_LIMIT_FX as int) <= d <= 2 * (crate::POS_LIMIT_FX as int),
    ensures
        -200000000000000 <= spec_metres(d) <= 200000000000000,
{
    crate::fixed::lemma_div_trunc_ordered(d, FX_ONE as int, 2 * (crate::POS_LIMIT_FX as int));
    vstd::arithmetic::div_mod::lemma_div_multiples_vanish(200000000000000, FX_ONE as int);
    assert(2 * (crate::POS_LIMIT_FX as int) == (FX_ONE as int) * 200000000000000)
        by (nonlinear_arith)
        requires
            crate::POS_LIMIT_FX == 100000000000000 * 4294967296,
            FX_ONE == 4294967296,
    ;
}

/// Dividing metre-scale components by `2^15` (toward zero) brings them
/// into the direction envelope of `scale_to_len`.
pub proof fn lemma_reduced_in_envelope(x: int, y: int)
    requires
        -200000000000000 <= x <= 200000000000000,
        -200000000000000 <= y <= 200000000000000,
    ensures
        -0x200000000 <= crate::fixed::spec_div_trunc(x, 0x8000) <= 0x200000000,
        -0x200000000 <= crate::fixed::spec_div_trunc(y, 0x8000) <= 0x200000000,
{
    crate::fixed::lemma_div_trunc_ordered(x, 0x8000, 200000000000000);
    crate::fixed::lemma_div_trunc_ordered(y, 0x8000, 200000000000000);
}

/// The metre part of a bounded difference is itself bounded.
proof fn lemma_metre_delta_bound(d: int)
    requires
        -0x80000000000000000000000int < d < 0x80000000000000000000000int,
    ensures
        -0x800000000000000int <= spec_metres(d) <= 0x800000000000000int,
{
    crate::fixed::lemma_div_trunc_ordered(d, FX_ONE as int, 0x80000000000000000000000int);
    assert(0x80000000000000000000000int / (FX_ONE as int) == 0x800000000000000int);
}

} // verus!
