//! Pixel painting: averaging, gamma correction, clamping, quantization,
//! and the textual encoding of one pixel line.

use vstd::prelude::*;
use crate::fixed::{
    Fx, SCALE, fx_mul, fx_div, fx_sqrt, mag, rtz, lemma_fx_mul_bound,
    lemma_fx_div_fits, lemma_sqrt_exists, lemma_rtz_mag,
};
use crate::vec3::{Color, WORLD_MAX};

verus! {

/// Raw value of the clamp ceiling `0.999`.
pub const CLAMP_MAX: i64 = 65470;

/// The decimal digits of a nonnegative number, as bytes.
pub open spec fn dec_spec(n: int) -> Seq<u8>
    decreases n,
{
    if n < 0 {
        Seq::empty()
    } else if n < 10 {
        seq![(48 + n) as u8]
    } else {
        dec_spec(n / 10).push((48 + n % 10) as u8)
    }
}

/// One channel of a painted pixel: the sample sum is averaged, gamma
/// corrected by a square root, clamped to `[0, 0.999]` and quantized to
/// `[0, 255]`.
pub open spec fn channel_byte(sum: int, samples: int) -> int
    recommends
        samples >= 1,
{
    let scale = fx_div(SCALE as int, samples * (SCALE as int));
    let v = fx_mul(sum, scale);
    let vs = if v < 0 {
        0
    } else {
        v
    };
    let sq = fx_sqrt(vs);
    let cl = if sq < 0 {
        0
    } else if sq > CLAMP_MAX as int {
        CLAMP_MAX as int
    } else {
        sq
    };
    rtz(cl * 256, SCALE as int)
}

/// The painted line of one pixel: three quantized channels separated by
/// spaces, ending in a newline.
pub open spec fn paint_spec(sum: Color, samples: int) -> Seq<u8> {
    dec_spec(channel_byte(sum.x@, samples)) + seq![32u8] + dec_spec(
        channel_byte(sum.y@, samples),
    ) + seq![32u8] + dec_spec(channel_byte(sum.z@, samples)) + seq![10u8]
}

/// Appends the decimal digits of `n`.
pub fn push_dec(out: &mut Vec<u8>, n: usize)
    ensures
        final(out)@ == old(out)@ + dec_spec(n as int),
    decreases n,
{
    if n < 10 {
        out.push((48 + n) as u8);
        proof {
            assert(final(out)@ =~= old(out)@ + dec_spec(n as int));
        }
    } else {
        push_dec(out, n / 10);
        out.push((48 + (n % 10)) as u8);
        proof {
            assert(final(out)@ =~= old(out)@ + dec_spec(n as int));
        }
    }
}

/// One exec channel.
fn channel(sum: Fx, samples: usize) -> (b: usize)
    requires
        1 <= samples <= 65536,
        mag(sum@) <= 65536 * (WORLD_MAX as int),
    ensures
        b as int == channel_byte(sum@, samples as int),
        b <= 255,
{
    let denom = Fx::from_raw((samples as i64) * SCALE);
    proof {
        lemma_fx_div_fits(SCALE as int, denom@, SCALE as int);
        vstd::arithmetic::div_mod::lemma_div_pos_is_pos(
            mag((SCALE as int) * (SCALE as int)),
            denom@,
        );
        lemma_rtz_mag((SCALE as int) * (SCALE as int), denom@);
        vstd::arithmetic::div_mod::lemma_div_is_ordered_by_denominator(
            (SCALE as int) * (SCALE as int),
            SCALE as int,
            denom@,
        );
        assert((SCALE as int) * (SCALE as int) / (SCALE as int) == SCALE as int)
            by (nonlinear_arith);
    }
    let scale = Fx::one().div(denom);
    proof {
        lemma_fx_mul_bound(sum@, scale@, 65536 * (WORLD_MAX as int), SCALE as int);
        assert(65536 * (WORLD_MAX as int) * (SCALE as int) / (SCALE as int) == 65536 * (
        WORLD_MAX as int)) by (nonlinear_arith);
    }
    let v = sum.mul(scale);
    let vs = if v.raw < 0 {
        Fx::zero()
    } else {
        v
    };
    proof {
        lemma_sqrt_exists(vs@ * (SCALE as int));
    }
    let sq = vs.sqrt();
    let cl: i64 = if sq.raw < 0 {
        0
    } else if sq.raw > CLAMP_MAX {
        CLAMP_MAX
    } else {
        sq.raw
    };
    proof {
        vstd::arithmetic::div_mod::lemma_div_pos_is_pos((cl as int) * 256, SCALE as int);
        lemma_rtz_mag((cl as int) * 256, SCALE as int);
        vstd::arithmetic::div_mod::lemma_div_is_ordered(
            (cl as int) * 256,
            65470int * 256,
            SCALE as int,
        );
        assert((cl as int) * 256 <= 65470 * 256) by (nonlinear_arith)
            requires
                0 <= cl as int <= 65470;
        assert(65470int * 256 / 65536 == 255int);
        assert(mag((cl as int) * 256) == (cl as int) * 256) by (nonlinear_arith)
            requires
                cl as int >= 0;
    }
    let b = ((cl as u64) * 256 / 65536) as usize;
    b
}

/// Paints one pixel: averages the accumulated sample sum, applies the
/// square-root gamma step, clamps and quantizes each channel, and encodes
/// the line `"r g b\n"`.
pub fn paint(out: &mut Vec<u8>, pixel_sum: &Color, samples: usize)
    requires
        1 <= samples <= 65536,
        mag(pixel_sum.x@) <= 65536 * (WORLD_MAX as int),
        mag(pixel_sum.y@) <= 65536 * (WORLD_MAX as int),
        mag(pixel_sum.z@) <= 65536 * (WORLD_MAX as int),
    ensures
        final(out)@ == old(out)@ + paint_spec(*pixel_sum, samples as int),
{
    let r = channel(pixel_sum.x, samples);
    let g = channel(pixel_sum.y, samples);
    let b = channel(pixel_sum.z, samples);
    push_dec(out, r);
    out.push(32);
    push_dec(out, g);
    out.push(32);
    push_dec(out, b);
    out.push(10);
    proof {
        assert(final(out)@ =~= old(out)@ + paint_spec(*pixel_sum, samples as int));
    }
}

} // verus!
