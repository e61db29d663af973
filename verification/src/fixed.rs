//! Signed 64.32 fixed-point scalars and the integer kernels (floor division,
//! Euclidean remainder, square root, cube root) the simulation is built on.
//!
//! A fixed-point scalar is an `i128` holding the physical value multiplied by
//! `2^32` (`FX_ONE`). Products of two scalars therefore carry `2^64` and are
//! brought back to scale with `mul_fx`, which divides by `FX_ONE` with floor
//! semantics, matching the Euclidean `/` and `%` of the specifications.
//! Signed *differences*, by contrast, are coarsened with `div_trunc`, which
//! rounds toward zero: a displacement's whole-unit part then depends on its
//! magnitude alone, so mirrored displacements stay exact negations and every
//! distance and direction built on them is independent of sign.

use vstd::prelude::*;

verus! {

use vstd::arithmetic::div_mod::lemma_div_pos_is_pos;
use vstd::arithmetic::div_mod::lemma_fundamental_div_mod;
use vstd::arithmetic::div_mod::lemma_fundamental_div_mod_converse_div;
use vstd::arithmetic::div_mod::lemma_fundamental_div_mod_converse_mod;

/// One (the unit value) in fixed point: `2^32`.
pub const FX_ONE: i128 = 4294967296;

/// `2*pi` scaled by `2^32`, rounded down; orientation angles live in `[0, TAU_FX)`.
pub const TAU_FX: i128 = 26986075409;

/// `pi` scaled by `2^32`, rounded down.
pub const PI_FX: i128 = 13493037704;

/// `pi/2` scaled by `2^32`, rounded down.
pub const HALF_PI_FX: i128 = 6746518852;

/// `pi/8` scaled by `2^32`, rounded down: the rocket's angular acceleration
/// in radians per second squared.
pub const FRAC_PI_8_FX: i128 = 1686629713;

/// The Newtonian constant of gravitation, `6.67430e-11 m^3 kg^-1 s^-2`
/// (2018 CODATA value), scaled by `2^60` and rounded to the nearest integer.
pub const G_SHIFT_60: i128 = 76949440;

/// A quotient of a nonnegative value by a positive divisor is at most the value.
proof fn lemma_div_le_self(m: int, d: int)
    requires
        m >= 0,
        d >= 1,
    ensures
        0 <= m / d <= m,
{
    lemma_fundamental_div_mod(m, d);
    lemma_div_pos_is_pos(m, d);
    assert(d * (m / d) >= m / d) by (nonlinear_arith)
        requires
            d >= 1,
            m / d >= 0,
    ;
}

/// A Euclidean quotient by a positive divisor never grows in magnitude.
pub proof fn lemma_div_magnitude(x: int, d: int)
    requires
        d >= 1,
    ensures
        x >= 0 ==> 0 <= x / d <= x,
        x < 0 ==> x <= x / d <= 0,
{
    lemma_fundamental_div_mod(x, d);
    let q: int = x / d;
    let r: int = x % d;
    if x >= 0 {
        lemma_div_le_self(x, d);
    } else {
        assert(x <= q <= 0) by (nonlinear_arith)
            requires
                x == d * q + r,
                0 <= r < d,
                d >= 1,
                x < 0,
        ;
    }
}

/// A product is bounded by the product of the factors' bounds.
pub proof fn lemma_mul_bound(a: int, b: int, ca: int, cb: int)
    requires
        -ca <= a <= ca,
        -cb <= b <= cb,
        0 <= ca,
        0 <= cb,
    ensures
        -(ca * cb) <= a * b <= ca * cb,
{
    assert(-(ca * cb) <= a * b <= ca * cb) by (nonlinear_arith)
        requires
            -ca <= a <= ca,
            -cb <= b <= cb,
            0 <= ca,
            0 <= cb,
    ;
}

/// Euclidean quotient and remainder of a negated value, written in terms of
/// the quotient and remainder of the value itself.
proof fn lemma_neg_div_mod(m: int, d: int)
    requires
        m >= 0,
        d > 0,
    ensures
        m % d == 0 ==> (-m) / d == -(m / d) && (-m) % d == 0,
        m % d != 0 ==> (-m) / d == -(m / d) - 1 && (-m) % d == d - (m % d),
{
    let q: int = m / d;
    let r: int = m % d;
    lemma_fundamental_div_mod(m, d);
    if r == 0 {
        assert(-m == (-q) * d + 0) by (nonlinear_arith)
            requires
                m == d * q + r,
                r == 0,
        ;
        lemma_fundamental_div_mod_converse_div(-m, d, -q, 0);
        lemma_fundamental_div_mod_converse_mod(-m, d, -q, 0);
    } else {
        assert(-m == (-q - 1) * d + (d - r)) by (nonlinear_arith)
            requires
                m == d * q + r,
        ;
        lemma_fundamental_div_mod_converse_div(-m, d, -q - 1, d - r);
        lemma_fundamental_div_mod_converse_mod(-m, d, -q - 1, d - r);
    }
}

/// Floor division by a positive divisor. The result agrees with the
/// Euclidean `/` of specification arithmetic for dividends of either sign.
pub fn div_floor(x: i128, d: i128) -> (r: i128)
    requires
        d > 0,
        x > i128::MIN,
    ensures
        r == x as int / d as int,
{
    if x >= 0 {
        let q: u128 = (x as u128) / (d as u128);
        proof {
            lemma_div_le_self(x as int, d as int);
        }
        q as i128
    } else {
        let m: u128 = (-x) as u128;
        let q: u128 = m / (d as u128);
        let rem: u128 = m % (d as u128);
        proof {
            lemma_div_le_self(m as int, d as int);
            lemma_neg_div_mod(m as int, d as int);
        }
        if rem == 0 {
            -(q as i128)
        } else {
            -(q as i128) - 1
        }
    }
}

/// Euclidean remainder by a positive divisor: the unique `r` in `[0, d)` with
/// `x == d * (x / d) + r`. Agrees with the `%` of specification arithmetic.
pub fn mod_euclid(x: i128, d: i128) -> (r: i128)
    requires
        d > 0,
        x > i128::MIN,
    ensures
        r == x as int % d as int,
        0 <= r < d,
{
    if x >= 0 {
        let r: u128 = (x as u128) % (d as u128);
        proof {
            lemma_fundamental_div_mod(x as int, d as int);
            lemma_div_le_self(x as int, d as int);
        }
        r as i128
    } else {
        let m: u128 = (-x) as u128;
        let rem: u128 = m % (d as u128);
        proof {
            lemma_neg_div_mod(m as int, d as int);
        }
        if rem == 0 {
            0
        } else {
            d - (rem as i128)
        }
    }
}

/// Division by a positive divisor rounded toward zero:
/// `sign(x) * floor(|x| / d)`. Used wherever a signed difference is brought
/// to a coarser unit, so that the result depends on the magnitude alone and
/// mirrored displacements stay exact negations of each other.
pub open spec fn spec_div_trunc(x: int, d: int) -> int {
    if x >= 0 {
        x / d
    } else {
        -((-x) / d)
    }
}

/// Negation commutes with truncating division: the quotient of a mirrored
/// value is the mirrored quotient.
pub proof fn lemma_div_trunc_neg(x: int, d: int)
    requires
        d >= 1,
    ensures
        spec_div_trunc(-x, d) == -spec_div_trunc(x, d),
{
    vstd::arithmetic::div_mod::lemma_div_of0(d);
}

/// A truncating quotient by a positive divisor never grows in magnitude,
/// and keeps the sign of the dividend.
pub proof fn lemma_div_trunc_magnitude(x: int, d: int)
    requires
        d >= 1,
    ensures
        x >= 0 ==> 0 <= spec_div_trunc(x, d) <= x,
        x < 0 ==> x <= spec_div_trunc(x, d) <= 0,
{
    if x >= 0 {
        lemma_div_le_self(x, d);
    } else {
        lemma_div_le_self(-x, d);
    }
}

/// A lower bound on the dividend's magnitude carries to the truncating
/// quotient: `|x| >= s` gives `|x / d| >= s / d`, with the sign kept.
pub proof fn lemma_div_trunc_lower(x: int, d: int, s: int)
    requires
        d >= 1,
        s >= 0,
    ensures
        x >= s ==> spec_div_trunc(x, d) >= s / d,
        x <= -s ==> spec_div_trunc(x, d) <= -(s / d),
{
    if x >= s {
        vstd::arithmetic::div_mod::lemma_div_is_ordered(s, x, d);
    }
    if x <= -s {
        vstd::arithmetic::div_mod::lemma_div_is_ordered(s, -x, d);
    }
}

/// An upper bound on the dividend's magnitude carries to the truncating
/// quotient: `|x| <= b` gives `|x / d| <= b / d`.
pub proof fn lemma_div_trunc_ordered(x: int, d: int, b: int)
    requires
        d >= 1,
        -b <= x <= b,
        0 <= b,
    ensures
        -(b / d) <= spec_div_trunc(x, d) <= b / d,
{
    vstd::arithmetic::div_mod::lemma_div_pos_is_pos(b, d);
    if x >= 0 {
        vstd::arithmetic::div_mod::lemma_div_is_ordered(x, b, d);
        vstd::arithmetic::div_mod::lemma_div_pos_is_pos(x, d);
    } else {
        vstd::arithmetic::div_mod::lemma_div_is_ordered(-x, b, d);
        vstd::arithmetic::div_mod::lemma_div_pos_is_pos(-x, d);
    }
}

/// Truncating division by a positive divisor.
pub fn div_trunc(x: i128, d: i128) -> (r: i128)
    requires
        d > 0,
        x > i128::MIN,
    ensures
        r == spec_div_trunc(x as int, d as int),
{
    if x >= 0 {
        let q: u128 = (x as u128) / (d as u128);
        proof {
            lemma_div_le_self(x as int, d as int);
        }
        q as i128
    } else {
        let q: u128 = ((-x) as u128) / (d as u128);
        proof {
            lemma_div_le_self((-x) as int, d as int);
        }
        -(q as i128)
    }
}

/// Scales a double-width product back down: `floor(x / 2^32)`, the Euclidean
/// quotient by `FX_ONE`.
pub fn fx_scale_down(x: i128) -> (r: i128)
    requires
        x > i128::MIN,
    ensures
        r == x as int / FX_ONE as int,
{
    div_floor(x, FX_ONE)
}

/// Product of two fixed-point scalars, brought back to scale:
/// `floor(a * b / 2^32)`.
pub fn mul_fx(a: i128, b: i128) -> (r: i128)
    requires
        -(0x40000000000000000000000000000000int) < a * b
            < 0x40000000000000000000000000000000int,
    ensures
        r == (a as int * b as int) / FX_ONE as int,
{
    let p: i128 = a * b;
    div_floor(p, FX_ONE)
}

/// A value within `ca` units (at scale) stays within `ca` after scaling
/// down: `-ca <= floor(p / 2^32) <= ca` whenever `|p| <= ca * 2^32`.
pub proof fn lemma_div_bound_within(p: int, ca: int)
    requires
        -(ca * (FX_ONE as int)) <= p <= ca * (FX_ONE as int),
        0 <= ca,
    ensures
        -ca <= p / (FX_ONE as int) <= ca,
{
    vstd::arithmetic::div_mod::lemma_div_is_ordered(p, ca * (FX_ONE as int), FX_ONE as int);
    vstd::arithmetic::div_mod::lemma_div_is_ordered(-(ca * (FX_ONE as int)), p, FX_ONE as int);
    vstd::arithmetic::div_mod::lemma_div_multiples_vanish(ca, FX_ONE as int);
    vstd::arithmetic::div_mod::lemma_div_multiples_vanish(-ca, FX_ONE as int);
    assert(ca * (FX_ONE as int) == (FX_ONE as int) * ca && -(ca * (FX_ONE as int)) == (
    FX_ONE as int) * -ca) by (nonlinear_arith);
}

/// Clamps a value into `[lo, hi]`.
pub open spec fn spec_clamp(x: int, lo: int, hi: int) -> int {
    if x < lo {
        lo
    } else if x > hi {
        hi
    } else {
        x
    }
}

/// `sign(delta) * floor(g * |delta| / d)`: one component of a magnitude `g`
/// projected onto the unit displacement `delta / d`.
pub open spec fn spec_project(g: int, delta: int, d: int) -> int {
    if delta >= 0 {
        (g * delta) / d
    } else {
        -((g * (-delta)) / d)
    }
}

/// Whether `r` is the floor of the square root of `n`.
pub open spec fn is_isqrt(n: int, r: int) -> bool {
    0 <= r && r * r <= n && n < (r + 1) * (r + 1)
}

/// The floor of the square root, as a specification-level function; it is
/// pinned down by `lemma_isqrt_unique`.
pub open spec fn spec_isqrt(n: int) -> int {
    choose|r: int| is_isqrt(n, r)
}

/// Every nonnegative integer has a floor square root, so `spec_isqrt` of it
/// satisfies `is_isqrt`.
pub proof fn lemma_isqrt_exists(n: int)
    requires
        n >= 0,
    ensures
        is_isqrt(n, spec_isqrt(n)),
    decreases n,
{
    if n == 0 {
        assert(is_isqrt(0, 0));
        assert(exists|q: int| is_isqrt(n, q));
    } else {
        lemma_isqrt_exists(n - 1);
        let r: int = spec_isqrt(n - 1);
        if (r + 1) * (r + 1) <= n {
            assert(is_isqrt(n, r + 1)) by (nonlinear_arith)
                requires
                    0 <= r,
                    r * r <= n - 1,
                    n - 1 < (r + 1) * (r + 1),
                    (r + 1) * (r + 1) <= n,
            ;
            assert(exists|q: int| is_isqrt(n, q));
        } else {
            assert(is_isqrt(n, r));
            assert(exists|q: int| is_isqrt(n, q));
        }
    }
}

/// At most one integer is the floor of a given square root, so a witness
/// determines `spec_isqrt`.
pub proof fn lemma_isqrt_unique(n: int, r: int)
    requires
        is_isqrt(n, r),
    ensures
        spec_isqrt(n) == r,
{
    assert(exists|q: int| is_isqrt(n, q)) by {
        assert(is_isqrt(n, r));
    }
    let r2: int = spec_isqrt(n);
    assert(is_isqrt(n, r2));
    assert(r == r2) by (nonlinear_arith)
        requires
            0 <= r,
            r * r <= n,
            n < (r + 1) * (r + 1),
            0 <= r2,
            r2 * r2 <= n,
            n < (r2 + 1) * (r2 + 1),
    ;
}

/// Floor of the square root: the unique `r` with `r^2 <= n < (r+1)^2`.
pub fn isqrt(n: u128) -> (r: u128)
    ensures
        r * r <= n,
        n < (r + 1) * (r + 1),
        r < 0x10000000000000000,
        r == spec_isqrt(n as int),
{
    let mut lo: u128 = 0;
    let mut hi: u128 = 0x10000000000000000;
    proof {
        assert((0x10000000000000000 as int) * (0x10000000000000000 as int) > u128::MAX as int);
    }
    while lo + 1 < hi
        invariant
            lo < hi <= 0x10000000000000000,
            lo * lo <= n,
            n < hi * hi,
        decreases hi - lo,
    {
        let mid: u128 = lo + (hi - lo) / 2;
        proof {
            assert(mid * mid <= 0xffffffffffffffff * 0xffffffffffffffff) by (nonlinear_arith)
                requires
                    0 <= mid <= 0xffffffffffffffff,
            ;
        }
        let sq: u128 = mid * mid;
        if sq <= n {
            lo = mid;
        } else {
            hi = mid;
        }
    }
    proof {
        lemma_isqrt_unique(n as int, lo as int);
    }
    lo
}

/// Whether `r` is the floor of the cube root of `n`.
pub open spec fn is_icbrt(n: int, r: int) -> bool {
    0 <= r && r * r * r <= n && n < (r + 1) * (r + 1) * (r + 1)
}

/// The floor of the cube root, as a specification-level function; it is
/// pinned down by `lemma_icbrt_unique`.
pub open spec fn spec_icbrt(n: int) -> int {
    choose|r: int| is_icbrt(n, r)
}

/// At most one integer is the floor of a given cube root, so a witness
/// determines `spec_icbrt`.
pub proof fn lemma_icbrt_unique(n: int, r: int)
    requires
        is_icbrt(n, r),
    ensures
        spec_icbrt(n) == r,
{
    assert(exists|q: int| is_icbrt(n, q)) by {
        assert(is_icbrt(n, r));
    }
    let r2: int = spec_icbrt(n);
    assert(is_icbrt(n, r2));
    assert(r == r2) by (nonlinear_arith)
        requires
            0 <= r,
            r * r * r <= n,
            n < (r + 1) * (r + 1) * (r + 1),
            0 <= r2,
            r2 * r2 * r2 <= n,
            n < (r2 + 1) * (r2 + 1) * (r2 + 1),
    ;
}

/// Floor of the cube root of `n`, for `n` below `2^105`.
pub fn icbrt(n: u128) -> (r: u128)
    requires
        n < 0x200000000000000000000000000,
    ensures
        r * r * r <= n,
        n < (r + 1) * (r + 1) * (r + 1),
        r < 0x800000000,
        r == spec_icbrt(n as int),
{
    let mut lo: u128 = 0;
    let mut hi: u128 = 0x800000000;
    proof {
        assert((0x800000000 as int) * (0x800000000 as int) * (0x800000000 as int)
            == 0x200000000000000000000000000int);
    }
    while lo + 1 < hi
        invariant
            lo < hi <= 0x800000000,
            lo * lo * lo <= n,
            n < hi * hi * hi,
        decreases hi - lo,
    {
        let mid: u128 = lo + (hi - lo) / 2;
        proof {
            assert(mid * mid <= 0x7ffffffff * 0x7ffffffff && mid * mid * mid <= 0x7ffffffff
                * 0x7ffffffff * 0x7ffffffff) by (nonlinear_arith)
                requires
                    0 <= mid <= 0x7ffffffff,
            ;
        }
        let cb: u128 = mid * mid * mid;
        if cb <= n {
            lo = mid;
        } else {
            hi = mid;
        }
    }
    proof {
        lemma_icbrt_unique(n as int, lo as int);
    }
    lo
}

} // verus!
