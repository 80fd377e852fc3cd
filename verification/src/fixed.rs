//! Fixed-point scalars.
//!
//! A scalar is stored as an `i64` holding `value * SCALE`, with
//! `SCALE = 2^16`.  Multiplication and division round toward zero; the spec
//! functions below state that rounding exactly, so every arithmetic result
//! is pinned down to the bit.

use vstd::prelude::*;

verus! {

/// Number of raw units per whole unit.
pub const SCALE: i64 = 65536;

/// A fixed-point scalar; `raw` holds the value multiplied by `SCALE`.
#[derive(Clone, Copy, PartialEq, Eq, Structural, Debug)]
pub struct Fx {
    pub raw: i64,
}

/// Magnitude of a mathematical integer.
pub open spec fn mag(n: int) -> int {
    if n >= 0 {
        n
    } else {
        -n
    }
}

/// Quotient of `n` by `d`, rounded toward zero (the rounding used by all
/// fixed-point products and quotients in this crate).
pub open spec fn rtz(n: int, d: int) -> int
    recommends
        d != 0,
{
    if (n >= 0) == (d >= 0) {
        mag(n) / mag(d)
    } else {
        -(mag(n) / mag(d))
    }
}

/// Raw result of a fixed-point product of raw values `a` and `b`.
pub open spec fn fx_mul(a: int, b: int) -> int {
    rtz(a * b, SCALE as int)
}

/// Raw result of a fixed-point quotient of raw values `a` and `b`.
pub open spec fn fx_div(a: int, b: int) -> int
    recommends
        b != 0,
{
    rtz(a * (SCALE as int), b)
}

impl View for Fx {
    type V = int;

    open spec fn view(&self) -> int {
        self.raw as int
    }
}

/// Magnitude of an `i64` as a `u64` (total: the most negative value fits).
fn mag64(x: i64) -> (r: u64)
    ensures
        r as int == mag(x as int),
{
    if x >= 0 {
        x as u64
    } else {
        (-(x as i128)) as u64
    }
}

pub proof fn lemma_mag_mul(a: int, b: int)
    by (nonlinear_arith)
    ensures
        mag(a * b) == mag(a) * mag(b),
        ((a >= 0) == (b >= 0)) ==> a * b >= 0,
        (a != 0 && b != 0 && ((a >= 0) != (b >= 0))) ==> a * b < 0,
{
}

/// Rounding toward zero is monotone in the numerator (for positive divisors).
pub proof fn lemma_rtz_monotone(n1: int, n2: int, d: int)
    requires
        d > 0,
        n1 <= n2,
    ensures
        rtz(n1, d) <= rtz(n2, d),
{
    if n1 >= 0 {
        assert(rtz(n1, d) == n1 / d);
        assert(rtz(n2, d) == n2 / d);
        vstd::arithmetic::div_mod::lemma_div_is_ordered(n1, n2, d);
    } else if n2 < 0 {
        vstd::arithmetic::div_mod::lemma_div_is_ordered(-n2, -n1, d);
    } else {
        vstd::arithmetic::div_mod::lemma_div_pos_is_pos(-n1, d);
        vstd::arithmetic::div_mod::lemma_div_pos_is_pos(n2, d);
    }
}

/// The magnitude of a rounded-toward-zero quotient is bounded by the
/// magnitude of the numerator over the divisor.
pub proof fn lemma_rtz_mag(n: int, d: int)
    requires
        d > 0,
    ensures
        mag(rtz(n, d)) == mag(n) / d,
        mag(rtz(n, d)) * d <= mag(n),
{
    vstd::arithmetic::div_mod::lemma_div_pos_is_pos(mag(n), d);
    vstd::arithmetic::div_mod::lemma_fundamental_div_mod(mag(n), d);
    vstd::arithmetic::div_mod::lemma_mod_division_less_than_divisor(mag(n), d);
    assert((mag(n) / d) * d <= mag(n)) by (nonlinear_arith)
        requires
            d > 0,
            mag(n) == d * (mag(n) / d) + mag(n) % d,
            mag(n) % d >= 0;
}

/// A fixed-point square is never negative.
pub proof fn lemma_fx_mul_self_nonneg(a: int)
    ensures
        fx_mul(a, a) >= 0,
{
    lemma_mag_mul(a, a);
    vstd::arithmetic::div_mod::lemma_div_pos_is_pos(mag(a * a), SCALE as int);
}

/// Negating one factor negates a fixed-point product exactly: rounding
/// toward zero is symmetric.
pub proof fn lemma_fx_mul_neg_right(a: int, b: int)
    ensures
        fx_mul(a, -b) == -fx_mul(a, b),
{
    assert(a * (-b) == -(a * b)) by (nonlinear_arith);
}

/// Negating the left factor negates a fixed-point product exactly.
pub proof fn lemma_fx_mul_neg_left(a: int, b: int)
    ensures
        fx_mul(-a, b) == -fx_mul(a, b),
{
    assert((-a) * b == -(a * b)) by (nonlinear_arith);
}

/// Multiplying by one (the scale itself) is exact.
pub proof fn lemma_fx_mul_one(a: int)
    ensures
        fx_mul(a, SCALE as int) == a,
        fx_mul(SCALE as int, a) == a,
{
    lemma_mag_mul(a, SCALE as int);
    lemma_mag_mul(SCALE as int, a);
    vstd::arithmetic::div_mod::lemma_div_multiples_vanish(mag(a), SCALE as int);
    assert(mag(a) * (SCALE as int) == (SCALE as int) * mag(a)) by (nonlinear_arith);
}

/// Multiplying by zero yields exactly zero.
pub proof fn lemma_fx_mul_zero(a: int)
    ensures
        fx_mul(a, 0) == 0,
        fx_mul(0, a) == 0,
{
    assert(a * 0 == 0) by (nonlinear_arith);
    assert(0 * a == 0) by (nonlinear_arith);
}

/// Sign of a fixed-point product follows the signs of its operands.
pub proof fn lemma_fx_mul_signs(a: int, b: int)
    ensures
        (a >= 0 && b >= 0) ==> fx_mul(a, b) >= 0,
        (a <= 0 && b <= 0) ==> fx_mul(a, b) >= 0,
        (a >= 0 && b <= 0) ==> fx_mul(a, b) <= 0,
        (a <= 0 && b >= 0) ==> fx_mul(a, b) <= 0,
{
    lemma_mag_mul(a, b);
    vstd::arithmetic::div_mod::lemma_div_pos_is_pos(mag(a * b), SCALE as int);
}

/// Bound on a fixed-point product from bounds on its operands.
pub proof fn lemma_fx_mul_bound(a: int, b: int, ab: int, bb: int)
    requires
        mag(a) <= ab,
        mag(b) <= bb,
        0 <= ab,
        0 <= bb,
    ensures
        mag(fx_mul(a, b)) <= ab * bb / (SCALE as int),
        mag(fx_mul(a, b)) * (SCALE as int) <= ab * bb,
{
    lemma_mag_mul(a, b);
    assert(mag(a) * mag(b) <= ab * bb) by (nonlinear_arith)
        requires
            0 <= mag(a) <= ab,
            0 <= mag(b) <= bb;
    lemma_rtz_mag(a * b, SCALE as int);
    vstd::arithmetic::div_mod::lemma_div_is_ordered(mag(a * b), ab * bb, SCALE as int);
    assert((ab * bb / (SCALE as int)) * (SCALE as int) <= ab * bb) by (nonlinear_arith)
        requires
            ab * bb >= 0,
            ab * bb / (SCALE as int) == ab * bb / 65536,
            65536 * (ab * bb / 65536) + (ab * bb) % 65536 == ab * bb,
            (ab * bb) % 65536 >= 0;
    vstd::arithmetic::div_mod::lemma_fundamental_div_mod(ab * bb, 65536);
    vstd::arithmetic::div_mod::lemma_mod_division_less_than_divisor(ab * bb, 65536);
}

impl Fx {
    /// The zero scalar.
    pub fn zero() -> (r: Fx)
        ensures
            r@ == 0,
    {
        Fx { raw: 0 }
    }

    /// One, i.e. `SCALE` raw units.
    pub fn one() -> (r: Fx)
        ensures
            r@ == SCALE as int,
    {
        Fx { raw: SCALE }
    }

    /// Builds a scalar from its raw representation.
    pub fn from_raw(raw: i64) -> (r: Fx)
        ensures
            r@ == raw as int,
    {
        Fx { raw }
    }

    /// Builds the scalar holding the whole number `n`.
    pub fn from_int(n: i32) -> (r: Fx)
        ensures
            r@ == n as int * (SCALE as int),
    {
        Fx { raw: (n as i64) * SCALE }
    }

    /// Sum.
    pub fn add(self, o: Fx) -> (r: Fx)
        requires
            i64::MIN as int <= self@ + o@ <= i64::MAX as int,
        ensures
            r@ == self@ + o@,
    {
        Fx { raw: self.raw + o.raw }
    }

    /// Difference.
    pub fn sub(self, o: Fx) -> (r: Fx)
        requires
            i64::MIN as int <= self@ - o@ <= i64::MAX as int,
        ensures
            r@ == self@ - o@,
    {
        Fx { raw: self.raw - o.raw }
    }

    /// Negation.
    pub fn neg(self) -> (r: Fx)
        requires
            self@ != i64::MIN as int,
        ensures
            r@ == -self@,
    {
        Fx { raw: -self.raw }
    }

    /// Magnitude.
    pub fn abs(self) -> (r: Fx)
        requires
            self@ != i64::MIN as int,
        ensures
            r@ == mag(self@),
    {
        if self.raw >= 0 {
            self
        } else {
            Fx { raw: -self.raw }
        }
    }

    /// Smaller of two scalars.
    pub fn min(self, o: Fx) -> (r: Fx)
        ensures
            r@ == if self@ <= o@ {
                self@
            } else {
                o@
            },
    {
        if self.raw <= o.raw {
            self
        } else {
            o
        }
    }

    /// Larger of two scalars.
    pub fn max(self, o: Fx) -> (r: Fx)
        ensures
            r@ == if self@ >= o@ {
                self@
            } else {
                o@
            },
    {
        if self.raw >= o.raw {
            self
        } else {
            o
        }
    }

    /// Strictly less.
    pub fn lt(self, o: Fx) -> (r: bool)
        ensures
            r == (self@ < o@),
    {
        self.raw < o.raw
    }

    /// Less or equal.
    pub fn le(self, o: Fx) -> (r: bool)
        ensures
            r == (self@ <= o@),
    {
        self.raw <= o.raw
    }

    /// Fixed-point product, rounded toward zero.
    pub fn mul(self, o: Fx) -> (r: Fx)
        requires
            -(i64::MAX as int) <= fx_mul(self@, o@) <= i64::MAX as int,
        ensures
            r@ == fx_mul(self@, o@),
    {
        let neg = (self.raw < 0) != (o.raw < 0);
        let ma = mag64(self.raw);
        let mb = mag64(o.raw);
        proof {
            assert((ma as int) * (mb as int) <= u128::MAX as int) by (nonlinear_arith)
                requires
                    0 <= ma as int <= u64::MAX as int,
                    0 <= mb as int <= u64::MAX as int;
        }
        let p: u128 = (ma as u128) * (mb as u128);
        let q: u128 = p / 65536u128;
        proof {
            lemma_mag_mul(self@, o@);
            assert(p as int == mag(self@ * o@));
            assert(q as int == mag(self@ * o@) / (SCALE as int));
            lemma_rtz_mag(self@ * o@, SCALE as int);
            assert(q as int == mag(fx_mul(self@, o@)));
        }
        let qi = q as i64;
        if neg {
            Fx { raw: -qi }
        } else {
            Fx { raw: qi }
        }
    }

    /// Fixed-point quotient, rounded toward zero.
    pub fn div(self, o: Fx) -> (r: Fx)
        requires
            o@ != 0,
            -(i64::MAX as int) <= fx_div(self@, o@) <= i64::MAX as int,
        ensures
            r@ == fx_div(self@, o@),
    {
        let neg = (self.raw < 0) != (o.raw < 0);
        let ma = mag64(self.raw);
        let mb = mag64(o.raw);
        let p: u128 = (ma as u128) * 65536u128;
        let q: u128 = p / (mb as u128);
        proof {
            lemma_mag_mul(self@, SCALE as int);
            assert(p as int == mag(self@ * (SCALE as int)));
            lemma_rtz_mag(self@ * (SCALE as int), mag(o@));
            assert(q as int == mag(self@ * (SCALE as int)) / mag(o@));
            lemma_rtz_signs(self@ * (SCALE as int), o@);
        }
        let qi = q as i64;
        if neg {
            Fx { raw: -qi }
        } else {
            Fx { raw: qi }
        }
    }
}

/// `r` is the integer square root (rounded down) of `n`.
pub open spec fn is_sqrt(n: int, r: int) -> bool {
    &&& 0 <= r
    &&& r * r <= n
    &&& n < (r + 1) * (r + 1)
}

/// The integer square root of `n`, rounded down.
pub open spec fn sqrt_floor(n: int) -> int {
    choose|r: int| is_sqrt(n, r)
}

/// Every nonnegative integer has an integer square root.
pub proof fn lemma_sqrt_exists(n: int)
    requires
        0 <= n,
    ensures
        is_sqrt(n, sqrt_floor(n)),
    decreases n,
{
    if n == 0 {
        assert(is_sqrt(0, 0));
    } else {
        lemma_sqrt_exists(n - 1);
        let p = choose|r: int| #[trigger] is_sqrt(n - 1, r);
        if n < (p + 1) * (p + 1) {
            assert(is_sqrt(n, p));
        } else {
            assert(n == (p + 1) * (p + 1));
            assert((p + 1) * (p + 1) < (p + 2) * (p + 2)) by (nonlinear_arith)
                requires
                    p >= 0;
            assert(is_sqrt(n, p + 1));
        }
    }
}

/// The integer square root is unique.
pub proof fn lemma_sqrt_unique(n: int, r: int)
    requires
        is_sqrt(n, r),
    ensures
        r == sqrt_floor(n),
{
    lemma_sqrt_exists(n);
    let s = sqrt_floor(n);
    if r < s {
        assert((r + 1) * (r + 1) <= s * s) by (nonlinear_arith)
            requires
                0 <= r,
                r + 1 <= s;
    } else if s < r {
        assert((s + 1) * (s + 1) <= r * r) by (nonlinear_arith)
            requires
                0 <= s,
                s + 1 <= r;
    }
}

/// Integer square root of a `u128`, by binary search.
pub fn isqrt_u128(n: u128) -> (r: u64)
    ensures
        is_sqrt(n as int, r as int),
        r as int == sqrt_floor(n as int),
{
    let mut lo: u128 = 0;
    let mut hi: u128 = 0x1_0000_0000_0000_0000;
    proof {
        assert((0x1_0000_0000_0000_0000u128 as int) * (0x1_0000_0000_0000_0000u128 as int)
            > n as int) by (nonlinear_arith);
    }
    while hi - lo > 1
        invariant
            0 <= lo < hi <= 0x1_0000_0000_0000_0000u128,
            (lo as int) * (lo as int) <= n as int,
            (n as int) < (hi as int) * (hi as int),
        decreases hi - lo,
    {
        let mid = lo + (hi - lo) / 2;
        proof {
            assert((mid as int) * (mid as int) < 0x1_0000_0000_0000_0000_0000_0000_0000_0000)
                by (nonlinear_arith)
                requires
                    0 <= (mid as int) < 0x1_0000_0000_0000_0000;
        }
        let sq = mid * mid;
        if sq <= n {
            lo = mid;
        } else {
            hi = mid;
        }
    }
    proof {
        assert(is_sqrt(n as int, lo as int));
        lemma_sqrt_unique(n as int, lo as int);
    }
    lo as u64
}

/// Raw value of the fixed-point square root of raw value `a`: the value is
/// `sqrt(a / SCALE)`, so the raw result is `sqrt_floor(a * SCALE)`.
pub open spec fn fx_sqrt(a: int) -> int {
    sqrt_floor(a * (SCALE as int))
}

/// Euclidean quotient and remainder of a raw value by `SCALE`: the lattice
/// cell of a coordinate and the offset within it.
pub open spec fn floor_units(a: int) -> int {
    a / (SCALE as int)
}

/// The `Fx` holding raw value `v` (meaningful when `v` fits an `i64`).
pub open spec fn fx(v: int) -> Fx {
    Fx { raw: v as i64 }
}

/// A fixed-point quotient's magnitude is at most the scaled numerator's, so
/// a bounded numerator keeps the quotient in `i64` range.
pub proof fn lemma_fx_div_fits(n: int, d: int, nb: int)
    requires
        d != 0,
        mag(n) <= nb,
        0 <= nb,
    ensures
        mag(fx_div(n, d)) <= nb * (SCALE as int),
{
    lemma_rtz_mag(n * (SCALE as int), mag(d));
    assert(rtz(n * (SCALE as int), d) == if (n * (SCALE as int) >= 0) == (d >= 0) {
        mag(n * (SCALE as int)) / mag(d)
    } else {
        -(mag(n * (SCALE as int)) / mag(d))
    });
    assert(mag(n * (SCALE as int)) == mag(n) * (SCALE as int)) by (nonlinear_arith);
    vstd::arithmetic::div_mod::lemma_div_is_ordered_by_denominator(
        mag(n) * (SCALE as int),
        1,
        mag(d),
    );
    assert(mag(n) * (SCALE as int) <= nb * (SCALE as int)) by (nonlinear_arith)
        requires
            mag(n) <= nb;
}

/// Magnitude of an `i128` as a `u128` (excluding the most negative value).
fn mag128(x: i128) -> (r: u128)
    requires
        x > i128::MIN,
    ensures
        r as int == mag(x as int),
{
    if x >= 0 {
        x as u128
    } else {
        (-x) as u128
    }
}

/// Wide quotient rounded toward zero, for intermediate intersection
/// arithmetic that does not fit the scalar type.
pub fn rtz_div_i128(n: i128, d: i128) -> (q: i128)
    requires
        d != 0,
        n > i128::MIN,
        d > i128::MIN,
    ensures
        q as int == rtz(n as int, d as int),
{
    let neg = (n < 0) != (d < 0);
    let mn = mag128(n);
    let md = mag128(d);
    let mq = mn / md;
    proof {
        vstd::arithmetic::div_mod::lemma_div_is_ordered_by_denominator(mag(n as int), 1, mag(d as int));
    }
    if neg {
        -(mq as i128)
    } else {
        mq as i128
    }
}

impl Fx {
    /// Clamps the scalar into `[lower, upper]`.
    pub fn clamp(self, lower: Fx, upper: Fx) -> (r: Fx)
        requires
            lower@ <= upper@,
        ensures
            r@ == if self@ < lower@ {
                lower@
            } else if self@ > upper@ {
                upper@
            } else {
                self@
            },
    {
        if self.raw < lower.raw {
            lower
        } else if self.raw > upper.raw {
            upper
        } else {
            self
        }
    }

    /// Halves the scalar, rounding toward zero.
    pub fn halve(self) -> (r: Fx)
        ensures
            r@ == rtz(self@, 2),
    {
        let m = mag64(self.raw);
        let h = m / 2;
        if self.raw >= 0 {
            Fx { raw: h as i64 }
        } else {
            Fx { raw: -(h as i64) }
        }
    }

    /// Fixed-point square root, rounded down.
    pub fn sqrt(self) -> (r: Fx)
        requires
            self@ >= 0,
        ensures
            r@ == fx_sqrt(self@),
            r@ >= 0,
            r@ * r@ <= self@ * (SCALE as int),
    {
        let m = mag64(self.raw);
        let p: u128 = (m as u128) * 65536u128;
        let q = isqrt_u128(p);
        proof {
            assert(p as int == self@ * (SCALE as int));
            assert(is_sqrt(p as int, q as int));
            assert((q as int) * (q as int) <= p as int);
            assert(q as int <= i64::MAX as int) by (nonlinear_arith)
                requires
                    0 <= q as int,
                    (q as int) * (q as int) <= self@ * 65536,
                    self@ <= i64::MAX as int;
        }
        Fx { raw: q as i64 }
    }

    /// Floor of the scalar as a whole number, with the fractional raw offset:
    /// returns `(q, rem)` with `raw == q * SCALE + rem` and `0 <= rem < SCALE`.
    pub fn floor_parts(self) -> (r: (i64, i64))
        ensures
            self@ == r.0 * (SCALE as int) + r.1 as int,
            0 <= r.1 < SCALE as int,
            r.0 == floor_units(self@),
    {
        let m = mag64(self.raw);
        let qm = (m / 65536u64) as i64;
        let rm = (m % 65536u64) as i64;
        if self.raw >= 0 {
            proof {
                vstd::arithmetic::div_mod::lemma_fundamental_div_mod(self@, 65536);
            }
            (qm, rm)
        } else if rm == 0 {
            proof {
                vstd::arithmetic::div_mod::lemma_fundamental_div_mod(mag(self@), 65536);
                assert(self@ == (-qm) * 65536 + 0) by (nonlinear_arith)
                    requires
                        mag(self@) == 65536 * (qm as int) + 0,
                        self@ == -mag(self@);
                vstd::arithmetic::div_mod::lemma_div_multiples_vanish(-(qm as int), 65536);
            }
            (-qm, 0)
        } else {
            proof {
                vstd::arithmetic::div_mod::lemma_fundamental_div_mod(mag(self@), 65536);
                vstd::arithmetic::div_mod::lemma_mod_division_less_than_divisor(mag(self@), 65536);
                assert(self@ == (-qm - 1) * 65536 + (65536 - rm)) by (nonlinear_arith)
                    requires
                        mag(self@) == 65536 * (qm as int) + rm as int,
                        self@ == -mag(self@);
                vstd::arithmetic::div_mod::lemma_fundamental_div_mod_converse(
                    self@,
                    65536,
                    -(qm as int) - 1,
                    65536 - rm as int,
                );
            }
            (-qm - 1, 65536 - rm)
        }
    }
}

/// Relates `rtz` over a signed divisor to the quotient of magnitudes.
proof fn lemma_rtz_signs(n: int, d: int)
    requires
        d != 0,
    ensures
        rtz(n, d) == if (n >= 0) == (d >= 0) {
            mag(n) / mag(d)
        } else {
            -(mag(n) / mag(d))
        },
        mag(rtz(n, d)) == mag(n) / mag(d),
{
    vstd::arithmetic::div_mod::lemma_div_pos_is_pos(mag(n), mag(d));
}

} // verus!
