//! Fixed-point sine and cosine: a seventh-order polynomial on the first
//! quadrant, clamped into `[0, 1]`, extended to the full turn by quadrant
//! reduction. The specification states exactly the polynomial the code
//! evaluates — in integer arithmetic there is no closed form to defer to —
//! and the clamp guarantees the range `[-1, 1]` outright. Consumers that
//! need an exact length (the resting constraint) renormalize the resulting
//! direction, so the polynomial's approximation error never reaches a
//! distance.

use vstd::prelude::*;

verus! {

use vstd::arithmetic::div_mod::lemma_div_is_ordered;
use vstd::arithmetic::mul::lemma_mul_nonnegative;
use vstd::arithmetic::div_mod::lemma_div_pos_is_pos;
use crate::fixed::div_floor;
use crate::fixed::lemma_mul_bound;
use crate::fixed::mod_euclid;
use crate::fixed::mul_fx;
use crate::fixed::FX_ONE;
use crate::fixed::HALF_PI_FX;
use crate::fixed::PI_FX;
use crate::fixed::TAU_FX;

/// The quarter-wave polynomial:
/// `y - y^3/6 + y^5/120 - y^7/5040`, every product brought back to scale
/// with floor semantics, the result clamped into `[0, 1]`.
pub open spec fn spec_sin_quarter(y: int) -> int {
    let one = FX_ONE as int;
    let y2 = (y * y) / one;
    let y3 = (y2 * y) / one;
    let y5 = (y3 * y2) / one;
    let y7 = (y5 * y2) / one;
    let s = y - y3 / 6 + y5 / 120 - y7 / 5040;
    if s < 0 {
        0
    } else if s > one {
        one
    } else {
        s
    }
}

/// Sine over `[0, 2*pi)` by quadrant reduction of the quarter-wave.
pub open spec fn spec_sin_fx(a: int) -> int {
    if a <= HALF_PI_FX {
        spec_sin_quarter(a)
    } else if a <= PI_FX {
        spec_sin_quarter(PI_FX - a)
    } else if a <= PI_FX + HALF_PI_FX {
        -spec_sin_quarter(a - PI_FX)
    } else {
        -spec_sin_quarter(TAU_FX - a)
    }
}

/// Cosine as sine shifted a quarter turn.
pub open spec fn spec_cos_fx(a: int) -> int {
    spec_sin_fx((a + HALF_PI_FX) % (TAU_FX as int))
}

/// The clamp puts every quarter-wave value into `[0, 1]`.
pub proof fn lemma_quarter_range(y: int)
    ensures
        0 <= spec_sin_quarter(y) <= FX_ONE,
{
}

/// Sine and cosine stay within `[-1, 1]` for every angle.
pub proof fn lemma_sin_cos_range(a: int)
    ensures
        -FX_ONE <= spec_sin_fx(a) <= FX_ONE,
        -FX_ONE <= spec_cos_fx(a) <= FX_ONE,
{
    lemma_quarter_range(a);
    lemma_quarter_range(PI_FX - a);
    lemma_quarter_range(a - PI_FX);
    lemma_quarter_range(TAU_FX - a);
    let b: int = (a + HALF_PI_FX) % (TAU_FX as int);
    lemma_quarter_range(b);
    lemma_quarter_range(PI_FX - b);
    lemma_quarter_range(b - PI_FX);
    lemma_quarter_range(TAU_FX - b);
}

/// The quarter-wave polynomial, evaluated for arguments up to a quarter
/// turn (plus the one unit of slack quadrant reduction can leave).
fn sin_quarter(y: i128) -> (r: i128)
    requires
        0 <= y <= HALF_PI_FX + 1,
    ensures
        r == spec_sin_quarter(y as int),
        0 <= r <= FX_ONE,
{
    proof {
        lemma_mul_bound(y as int, y as int, 0x200000000, 0x200000000);
        lemma_mul_nonnegative(y as int, y as int);
        lemma_div_pos_is_pos(y as int * y as int, FX_ONE as int);
        lemma_div_is_ordered(y as int * y as int, 0x200000000int * 0x200000000, FX_ONE as int);
    }
    let y2: i128 = mul_fx(y, y);
    proof {
        lemma_mul_bound(y2 as int, y as int, 0x400000000, 0x200000000);
        lemma_mul_nonnegative(y2 as int, y as int);
        lemma_div_pos_is_pos(y2 as int * y as int, FX_ONE as int);
        lemma_div_is_ordered(y2 as int * y as int, 0x400000000int * 0x200000000, FX_ONE as int);
    }
    let y3: i128 = mul_fx(y2, y);
    proof {
        lemma_mul_bound(y3 as int, y2 as int, 0x800000000, 0x400000000);
        lemma_mul_nonnegative(y3 as int, y2 as int);
        lemma_div_pos_is_pos(y3 as int * y2 as int, FX_ONE as int);
        lemma_div_is_ordered(y3 as int * y2 as int, 0x800000000int * 0x400000000, FX_ONE as int);
    }
    let y5: i128 = mul_fx(y3, y2);
    proof {
        lemma_mul_bound(y5 as int, y2 as int, 0x2000000000, 0x400000000);
        lemma_mul_nonnegative(y5 as int, y2 as int);
        lemma_div_pos_is_pos(y5 as int * y2 as int, FX_ONE as int);
        lemma_div_is_ordered(y5 as int * y2 as int, 0x2000000000int * 0x400000000, FX_ONE as int);
    }
    let y7: i128 = mul_fx(y5, y2);
    proof {
        crate::fixed::lemma_div_magnitude(y3 as int, 6);
        crate::fixed::lemma_div_magnitude(y5 as int, 120);
        crate::fixed::lemma_div_magnitude(y7 as int, 5040);
    }
    let s: i128 = y - div_floor(y3, 6) + div_floor(y5, 120) - div_floor(y7, 5040);
    if s < 0 {
        0
    } else if s > FX_ONE {
        FX_ONE
    } else {
        s
    }
}

/// Sine of an orientation angle in `[0, 2*pi)`.
pub fn sin_fx(a: i128) -> (r: i128)
    requires
        0 <= a < TAU_FX,
    ensures
        r == spec_sin_fx(a as int),
        -FX_ONE <= r <= FX_ONE,
{
    if a <= HALF_PI_FX {
        sin_quarter(a)
    } else if a <= PI_FX {
        sin_quarter(PI_FX - a)
    } else if a <= PI_FX + HALF_PI_FX {
        -sin_quarter(a - PI_FX)
    } else {
        -sin_quarter(TAU_FX - a)
    }
}

/// Cosine of an orientation angle in `[0, 2*pi)`.
pub fn cos_fx(a: i128) -> (r: i128)
    requires
        0 <= a < TAU_FX,
    ensures
        r == spec_cos_fx(a as int),
        -FX_ONE <= r <= FX_ONE,
{
    let t: i128 = mod_euclid(a + HALF_PI_FX, TAU_FX);
    sin_fx(t)
}

} // verus!
