//! Fixed-point circle constants and the arc-tangent approximation used for
//! spherical surface coordinates.
//!
//! The approximation is the classic one-term polynomial
//! `atan(x) ~ x * (pi/4 + 0.273 * (1 - x))` on `[0, 1]`, extended to the
//! full circle by octant symmetry.  Contracts state the computed fixed-point
//! formula exactly.

use vstd::prelude::*;
use crate::fixed::{Fx, SCALE, fx_mul, fx_div, mag, lemma_rtz_mag, lemma_sqrt_exists, lemma_fx_mul_bound};

verus! {

/// `pi * SCALE`, rounded to nearest.
pub const PI_FX: i64 = 205887;

/// `2 * pi * SCALE`, rounded to nearest.
pub const TWO_PI_FX: i64 = 411775;

/// `pi / 2 * SCALE`, rounded to nearest.
pub const HALF_PI_FX: i64 = 102944;

/// `pi / 4 * SCALE`, rounded to nearest.
pub const QUARTER_PI_FX: i64 = 51472;

/// `0.273 * SCALE`, the slope correction of the arc-tangent polynomial.
pub const ATAN_K_FX: i64 = 17891;

/// Raw value of the arc-tangent polynomial on a ratio `r` in `[0, SCALE]`.
pub open spec fn atan_unit_spec(r: int) -> int {
    fx_mul(r, QUARTER_PI_FX as int + fx_mul(ATAN_K_FX as int, SCALE as int - r))
}

/// Arc tangent of a ratio in `[0, 1]`, in radians in `[0, pi/4]`-ish range.
pub fn atan_unit(r: Fx) -> (a: Fx)
    requires
        0 <= r@ <= SCALE as int,
    ensures
        a@ == atan_unit_spec(r@),
        0 <= a@ <= HALF_PI_FX as int,
{
    proof {
        lemma_fx_mul_bound(ATAN_K_FX as int, SCALE as int - r@, ATAN_K_FX as int, SCALE as int);
        lemma_fx_mul_bound(
            r@,
            QUARTER_PI_FX as int + fx_mul(ATAN_K_FX as int, SCALE as int - r@),
            SCALE as int,
            QUARTER_PI_FX as int + ATAN_K_FX as int,
        );
        crate::fixed::lemma_fx_mul_signs(r@, QUARTER_PI_FX as int + fx_mul(ATAN_K_FX as int, SCALE as int - r@));
        crate::fixed::lemma_fx_mul_signs(ATAN_K_FX as int, SCALE as int - r@);
    }
    let k = Fx::from_raw(ATAN_K_FX).mul(Fx::from_raw(SCALE - r.raw));
    r.mul(Fx::from_raw(QUARTER_PI_FX + k.raw))
}

/// Raw value of the full-circle arc tangent of `y / x`, in `(-pi, pi]`.
pub open spec fn atan2_spec(y: int, x: int) -> int {
    if x == 0 && y == 0 {
        0
    } else {
        let ax = mag(x);
        let ay = mag(y);
        let acute = if ay <= ax {
            atan_unit_spec(fx_div(ay, ax))
        } else {
            HALF_PI_FX as int - atan_unit_spec(fx_div(ax, ay))
        };
        if x >= 0 && y >= 0 {
            acute
        } else if x < 0 && y >= 0 {
            PI_FX as int - acute
        } else if x < 0 {
            acute - PI_FX as int
        } else {
            -acute
        }
    }
}

/// Full-circle arc tangent.
pub fn atan2_fx(y: Fx, x: Fx) -> (a: Fx)
    requires
        mag(y@) <= 0x1_0000_0000_0000,
        mag(x@) <= 0x1_0000_0000_0000,
    ensures
        a@ == atan2_spec(y@, x@),
        mag(a@) <= PI_FX as int,
{
    if x.raw == 0 && y.raw == 0 {
        return Fx::zero();
    }
    let ax = x.abs();
    let ay = y.abs();
    let acute = if ay.raw <= ax.raw {
        proof {
            lemma_ratio_unit(ay@, ax@);
        }
        atan_unit(ay.div(ax))
    } else {
        proof {
            lemma_ratio_unit(ax@, ay@);
        }
        let b = atan_unit(ax.div(ay));
        Fx::from_raw(HALF_PI_FX - b.raw)
    };
    if x.raw >= 0 && y.raw >= 0 {
        acute
    } else if x.raw < 0 && y.raw >= 0 {
        Fx::from_raw(PI_FX - acute.raw)
    } else if x.raw < 0 {
        Fx::from_raw(acute.raw - PI_FX)
    } else {
        Fx::from_raw(-acute.raw)
    }
}

/// A quotient of magnitudes with numerator at most the denominator lies in
/// `[0, SCALE]`.
pub proof fn lemma_ratio_unit(n: int, d: int)
    requires
        0 <= n <= d,
        0 < d,
    ensures
        0 <= fx_div(n, d) <= SCALE as int,
{
    lemma_rtz_mag(n * (SCALE as int), d);
    assert(mag(n * (SCALE as int)) == n * (SCALE as int)) by (nonlinear_arith)
        requires
            n >= 0;
    assert(n * (SCALE as int) <= d * (SCALE as int)) by (nonlinear_arith)
        requires
            n <= d,
            SCALE as int > 0;
    vstd::arithmetic::div_mod::lemma_div_is_ordered(n * (SCALE as int), d * (SCALE as int), d);
    vstd::arithmetic::div_mod::lemma_div_multiples_vanish(SCALE as int, d);
    assert(d * (SCALE as int) == (SCALE as int) * d) by (nonlinear_arith);
    vstd::arithmetic::div_mod::lemma_div_pos_is_pos(n * (SCALE as int), d);
}

/// The arc-tangent polynomial maps `[0, SCALE]` into `[0, pi/2]`.
pub proof fn lemma_atan_unit_range(r: int)
    requires
        0 <= r <= SCALE as int,
    ensures
        0 <= atan_unit_spec(r) <= HALF_PI_FX as int,
{
    crate::fixed::lemma_fx_mul_signs(ATAN_K_FX as int, SCALE as int - r);
    lemma_fx_mul_bound(ATAN_K_FX as int, SCALE as int - r, ATAN_K_FX as int, SCALE as int);
    let f = QUARTER_PI_FX as int + fx_mul(ATAN_K_FX as int, SCALE as int - r);
    crate::fixed::lemma_fx_mul_signs(r, f);
    lemma_fx_mul_bound(r, f, SCALE as int, QUARTER_PI_FX as int + ATAN_K_FX as int);
}

/// The full-circle arc tangent stays within `(-pi, pi]`, and is nonnegative
/// for a nonnegative first argument.
pub proof fn lemma_atan2_range(y: int, x: int)
    ensures
        mag(atan2_spec(y, x)) <= PI_FX as int,
        y >= 0 ==> 0 <= atan2_spec(y, x) <= PI_FX as int,
{
    if x == 0 && y == 0 {
    } else {
        let ax = mag(x);
        let ay = mag(y);
        if ay <= ax {
            lemma_ratio_unit(ay, ax);
            lemma_atan_unit_range(fx_div(ay, ax));
        } else {
            lemma_ratio_unit(ax, ay);
            lemma_atan_unit_range(fx_div(ax, ay));
        }
    }
}

/// The arc cosine lies in `[0, pi]`.
pub proof fn lemma_acos_range(y: int)
    ensures
        0 <= acos_spec(y) <= PI_FX as int,
{
    let rest = if SCALE as int - fx_mul(y, y) >= 0 { SCALE as int - fx_mul(y, y) } else { 0 };
    lemma_sqrt_exists(rest * (SCALE as int));
    lemma_atan2_range(crate::fixed::sqrt_floor(rest * (SCALE as int)), y);
}

/// Raw value of the arc cosine of `y` in `[-1, 1]`, in `[0, pi]`.
pub open spec fn acos_spec(y: int) -> int {
    atan2_spec(crate::fixed::sqrt_floor(
        (if SCALE as int - fx_mul(y, y) >= 0 { SCALE as int - fx_mul(y, y) } else { 0 })
            * (SCALE as int),
    ), y)
}

/// Arc cosine via the arc tangent of `sqrt(1 - y*y) / y`.
pub fn acos_fx(y: Fx) -> (a: Fx)
    requires
        mag(y@) <= SCALE as int,
    ensures
        a@ == acos_spec(y@),
        mag(a@) <= PI_FX as int,
{
    proof {
        lemma_fx_mul_bound(y@, y@, SCALE as int, SCALE as int);
    }
    let yy = y.mul(y);
    let rest = if SCALE - yy.raw >= 0 {
        Fx::from_raw(SCALE - yy.raw)
    } else {
        Fx::zero()
    };
    proof {
        crate::fixed::lemma_fx_mul_self_nonneg(y@);
        lemma_sqrt_exists(rest@ * (SCALE as int));
        let s = crate::fixed::sqrt_floor(rest@ * (SCALE as int));
        assert(s * s <= rest@ * (SCALE as int));
        assert(s <= 0x1_0000_0000_0000) by (nonlinear_arith)
            requires
                0 <= s,
                s * s <= rest@ * (SCALE as int),
                rest@ <= SCALE as int;
    }
    let s = rest.sqrt();
    atan2_fx(s, y)
}

} // verus!
