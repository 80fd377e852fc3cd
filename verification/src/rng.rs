//! Randomness, behind trusted wrappers around the `rand` crate, and small
//! verified samplers built on them.  Every verified consumer takes the drawn
//! values as plain data and states what holds of every possible outcome.

use vstd::prelude::*;
use crate::fixed::{Fx, SCALE, mag, lemma_fx_mul_bound, lemma_fx_mul_signs};

verus! {

#[verifier::external_type_specification]
#[verifier::external_body]
pub struct ExThreadRng(rand::rngs::ThreadRng);

/// Relies on rand::thread_rng: a handle to the calling thread's generator.
/// Nothing is promised of it; every draw is specified on its wrapper.
#[verifier::external_body]
pub fn fresh_rng() -> rand::rngs::ThreadRng {
    rand::thread_rng()
}

/// Relies on rand::Rng::gen_range over `0..n`: a value uniformly below `n`
/// (`gen_range` panics on an empty range, which `n > 0` rules out).  Only
/// the bound is promised; the draw itself is chance.
#[verifier::external_body]
pub fn rand_below(rng: &mut rand::rngs::ThreadRng, n: u64) -> (r: u64)
    requires
        n > 0,
    ensures
        r < n,
{
    rand::Rng::gen_range(rng, 0..n)
}

/// A uniform scalar on the grid of `[0, 1)`.
pub fn rand_unit(rng: &mut rand::rngs::ThreadRng) -> (u: Fx)
    ensures
        0 <= u@ < SCALE as int,
{
    let raw = rand_below(rng, 65536);
    Fx::from_raw(raw as i64)
}

/// A uniform scalar on the grid of `[lo, hi)`.
pub fn rand_range(rng: &mut rand::rngs::ThreadRng, lo: Fx, hi: Fx) -> (r: Fx)
    requires
        lo@ < hi@,
        mag(lo@) <= 0x1_0000_0000_0000,
        mag(hi@) <= 0x1_0000_0000_0000,
    ensures
        lo@ <= r@ < hi@,
{
    let u = rand_unit(rng);
    proof {
        lemma_fx_mul_bound(hi@ - lo@, u@, hi@ - lo@, SCALE as int - 1);
        lemma_fx_mul_signs(hi@ - lo@, u@);
        crate::fixed::lemma_rtz_mag((hi@ - lo@) * u@, SCALE as int);
        assert((hi@ - lo@) * (SCALE as int - 1) / (SCALE as int) < hi@ - lo@) by (nonlinear_arith)
            requires
                0 < hi@ - lo@;
    }
    let off = hi.sub(lo).mul(u);
    lo.add(off)
}

/// An index uniformly below `n`.
pub fn rand_index(rng: &mut rand::rngs::ThreadRng, n: usize) -> (r: usize)
    requires
        n > 0,
    ensures
        r < n,
{
    rand_below(rng, n as u64) as usize
}

/// A nonnegative sample of (approximately) the exponential distribution
/// with unit rate divided by `ln 2`: a geometric count of halvings plus a
/// uniform fraction, i.e. a draw of `-log2(U)` with the fractional part
/// linearized.
pub fn rand_neg_log2(rng: &mut rand::rngs::ThreadRng) -> (r: Fx)
    ensures
        0 <= r@ <= 33 * (SCALE as int),
{
    let mut g: i64 = 0;
    let mut stop = false;
    let mut rounds: u64 = 0;
    while rounds < 32 && !stop
        invariant
            0 <= g <= rounds as int,
            rounds <= 32,
        decreases 32 - rounds,
    {
        rounds = rounds + 1;
        if rand_below(rng, 2) == 1 {
            stop = true;
        } else {
            g = g + 1;
        }
    }
    let frac = rand_unit(rng);
    Fx::from_raw(g * SCALE + frac.raw)
}

} // verus!
