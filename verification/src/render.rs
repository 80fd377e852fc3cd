//! The render driver's verified parts: band partitioning, per-band pixel
//! rendering, and deterministic reassembly of band outputs.
//!
//! Workers (plain threads, outside this library) each render one band and
//! report `(band index, bytes)`; `assemble` reorders the reports by band
//! index so the output never depends on completion order.

use vstd::prelude::*;
use crate::fixed::{Fx, SCALE, mag, lemma_rtz_mag, lemma_fx_div_fits};
use crate::vec3::{Color, Vec3, WORLD_MAX};
use crate::camera::{Camera, camera_wf};
use crate::hittable_list::{HittableList, Environment, list_wf, mats_wf, env_wf};
use crate::material::Material;
use crate::color::{paint, paint_spec, push_dec, dec_spec};

verus! {

/// Image and sampling parameters, passed in as plain configuration.
#[derive(Clone, Copy, PartialEq, Eq, Structural, Debug)]
pub struct RenderConfig {
    pub width: usize,
    pub height: usize,
    pub samples: usize,
    pub max_depth: usize,
    pub threads: usize,
}

/// Sizes within the ranges the arithmetic supports.
pub open spec fn cfg_wf(cfg: RenderConfig) -> bool {
    &&& 2 <= cfg.width <= 32768
    &&& 2 <= cfg.height <= 32768
    &&& 1 <= cfg.samples <= 65536
    &&& 1 <= cfg.threads <= 32768
    &&& cfg.max_depth <= 256
}

/// Rows per band: the height split over the workers, rounded up.
pub open spec fn rows_per_band(cfg: RenderConfig) -> int {
    cfg.height as int / cfg.threads as int + 1
}

/// First row of band `t`.
pub open spec fn band_lo(cfg: RenderConfig, t: int) -> int {
    t * rows_per_band(cfg)
}

/// One past the last row of band `t`.
pub open spec fn band_hi(cfg: RenderConfig, t: int) -> int {
    if (t + 1) * rows_per_band(cfg) <= cfg.height as int {
        (t + 1) * rows_per_band(cfg)
    } else {
        cfg.height as int
    }
}

/// Number of pixels in band `t`.
pub open spec fn band_pixels(cfg: RenderConfig, t: int) -> int {
    if band_hi(cfg, t) <= band_lo(cfg, t) {
        0
    } else {
        (band_hi(cfg, t) - band_lo(cfg, t)) * cfg.width as int
    }
}

/// The encoding of a sequence of pixel sample sums: one painted line per
/// pixel, in order.
pub open spec fn band_encode(sums: Seq<Color>, samples: int) -> Seq<u8>
    decreases sums.len(),
{
    if sums.len() == 0 {
        Seq::empty()
    } else {
        band_encode(sums.drop_last(), samples) + paint_spec(sums.last(), samples)
    }
}

/// The file header: `P3`, the image size, and the channel maximum.
pub open spec fn header_spec(cfg: RenderConfig) -> Seq<u8> {
    seq![80u8, 51u8, 10u8] + dec_spec(cfg.width as int) + seq![32u8] + dec_spec(
        cfg.height as int,
    ) + seq![10u8] + seq![50u8, 53u8, 53u8, 10u8]
}

/// Why reassembly failed: some band index never reported.
#[derive(Clone, Copy, PartialEq, Eq, Structural, Debug)]
pub enum RenderError {
    MissingBand,
}

/// A normalized viewport coordinate: `(index + jitter) / (limit - 1)`,
/// which stays within two units.
fn viewport_coord(index: usize, limit: usize, rng: &mut rand::rngs::ThreadRng) -> (c: Fx)
    requires
        2 <= limit <= 32768,
        index < limit,
    ensures
        0 <= c@ <= 2 * SCALE as int,
{
    let jitter = crate::rng::rand_unit(rng);
    let num = Fx::from_raw((index as i64) * SCALE + jitter.raw);
    let den = Fx::from_raw(((limit - 1) as i64) * SCALE);
    proof {
        lemma_fx_div_fits(num@, den@, 0x1_0000_0000_0000);
        lemma_rtz_mag(num@ * (SCALE as int), den@);
        vstd::arithmetic::div_mod::lemma_div_pos_is_pos(mag(num@ * (SCALE as int)), den@);
        assert(mag(num@ * (SCALE as int)) == num@ * (SCALE as int)) by (nonlinear_arith)
            requires
                num@ >= 0;
        assert(num@ * (SCALE as int) <= (2 * SCALE as int) * den@) by (nonlinear_arith)
            requires
                0 <= num@,
                num@ < (limit as int) * 65536,
                den@ == ((limit - 1) as int) * 65536,
                2 <= limit as int;
        vstd::arithmetic::div_mod::lemma_div_is_ordered(
            num@ * (SCALE as int),
            (2 * SCALE as int) * den@,
            den@,
        );
        vstd::arithmetic::div_mod::lemma_div_by_multiple(2 * SCALE as int, den@);
    }
    num.div(den)
}

/// Renders one band: every pixel in rows `[band_lo, band_hi)` (top row
/// first), each the average of `samples` jittered camera rays.  The output
/// is exactly the per-pixel painted encoding of some sequence of
/// `band pixels` sample sums — the sums themselves are chance.
pub fn render_band(
    list: &HittableList,
    mats: &Vec<Material>,
    env: &Environment,
    cam: &Camera,
    cfg: RenderConfig,
    t: usize,
    rng: &mut rand::rngs::ThreadRng,
) -> (out: Vec<u8>)
    requires
        list_wf(list.objects@),
        mats_wf(mats@),
        env_wf(*env),
        camera_wf(*cam),
        cfg_wf(cfg),
        t < cfg.threads,
    ensures
        exists|sums: Seq<Color>|
            #![trigger band_encode(sums, cfg.samples as int)]
            sums.len() == band_pixels(cfg, t as int) && (forall|k: int|
                0 <= k < sums.len() ==> 0 <= (#[trigger] sums[k]).x@ <= cfg.samples as int * (
                WORLD_MAX as int) && 0 <= sums[k].y@ <= cfg.samples as int * (WORLD_MAX as int)
                    && 0 <= sums[k].z@ <= cfg.samples as int * (WORLD_MAX as int)) && out@
                == band_encode(sums, cfg.samples as int),
{
    let rpb = cfg.height / cfg.threads + 1;
    proof {
        assert((t as int) * (rpb as int) <= 32768 * 32769) by (nonlinear_arith)
            requires
                0 <= t as int <= 32768,
                0 <= rpb as int <= 32769;
        assert((t as int + 1) * (rpb as int) <= 32769 * 32769) by (nonlinear_arith)
            requires
                0 <= t as int + 1 <= 32769,
                0 <= rpb as int <= 32769;
    }
    let lo = t * rpb;
    let hi0 = (t + 1) * rpb;
    let hi = if hi0 <= cfg.height {
        hi0
    } else {
        cfg.height
    };
    let mut out: Vec<u8> = Vec::new();
    let ghost mut sums: Seq<Color> = Seq::empty();
    proof {
        assert(lo as int == band_lo(cfg, t as int));
        assert(hi as int == band_hi(cfg, t as int) || hi as int <= band_lo(cfg, t as int));
        assert(band_encode(sums, cfg.samples as int) =~= Seq::<u8>::empty());
    }
    if hi <= lo {
        proof {
            assert(sums.len() == band_pixels(cfg, t as int)) by {
                assert(band_hi(cfg, t as int) <= band_lo(cfg, t as int));
            }
        }
        return out;
    }
    let mut i = hi;
    while i > lo
        invariant
            list_wf(list.objects@),
            mats_wf(mats@),
            env_wf(*env),
            camera_wf(*cam),
            cfg_wf(cfg),
            lo <= i <= hi,
            hi <= cfg.height,
            2 <= cfg.width <= 32768,
            1 <= cfg.samples <= 65536,
            sums.len() == (hi - i) * cfg.width as int,
            forall|k: int|
                0 <= k < sums.len() ==> 0 <= (#[trigger] sums[k]).x@ <= cfg.samples as int * (
                WORLD_MAX as int) && 0 <= sums[k].y@ <= cfg.samples as int * (WORLD_MAX as int)
                    && 0 <= sums[k].z@ <= cfg.samples as int * (WORLD_MAX as int),
            out@ == band_encode(sums, cfg.samples as int),
        decreases i,
    {
        i = i - 1;
        let mut j: usize = 0;
        while j < cfg.width
            invariant
                list_wf(list.objects@),
                mats_wf(mats@),
                env_wf(*env),
                camera_wf(*cam),
                cfg_wf(cfg),
                lo <= i < hi,
                hi <= cfg.height,
                2 <= cfg.width <= 32768,
                1 <= cfg.samples <= 65536,
                j <= cfg.width,
                sums.len() == (hi - i - 1) * cfg.width as int + j as int,
                forall|k: int|
                    0 <= k < sums.len() ==> 0 <= (#[trigger] sums[k]).x@ <= cfg.samples as int * (
                    WORLD_MAX as int) && 0 <= sums[k].y@ <= cfg.samples as int * (WORLD_MAX as int)
                        && 0 <= sums[k].z@ <= cfg.samples as int * (WORLD_MAX as int),
                out@ == band_encode(sums, cfg.samples as int),
            decreases cfg.width - j,
        {
            let mut sum = Vec3::zero();
            let mut s: usize = 0;
            while s < cfg.samples
                invariant
                    list_wf(list.objects@),
                    mats_wf(mats@),
                    env_wf(*env),
                    camera_wf(*cam),
                    cfg_wf(cfg),
                    lo <= i < hi,
                    hi <= cfg.height,
                    j < cfg.width,
                    2 <= cfg.width <= 32768,
                    1 <= cfg.samples <= 65536,
                    s <= cfg.samples,
                    0 <= sum.x@ <= s as int * (WORLD_MAX as int),
                    0 <= sum.y@ <= s as int * (WORLD_MAX as int),
                    0 <= sum.z@ <= s as int * (WORLD_MAX as int),
                decreases cfg.samples - s,
            {
                let u = viewport_coord(j, cfg.width, rng);
                let v = viewport_coord(i, cfg.height, rng);
                proof {
                    assert((s as int) * (WORLD_MAX as int) + (WORLD_MAX as int) == (s as int + 1)
                        * (WORLD_MAX as int)) by (nonlinear_arith);
                    assert((s as int + 1) * (WORLD_MAX as int) <= 65536 * (WORLD_MAX as int))
                        by (nonlinear_arith)
                        requires
                            s as int + 1 <= 65536;
                }
                let ray = cam.get_ray(u, v, rng);
                let c = list.ray_color(&ray, env, cfg.max_depth, mats, rng);
                sum = Vec3::new(
                    Fx::from_raw(sum.x.raw + c.x.raw),
                    Fx::from_raw(sum.y.raw + c.y.raw),
                    Fx::from_raw(sum.z.raw + c.z.raw),
                );
                s = s + 1;
            }
            proof {
                assert(mag(sum.x@) <= 65536 * (WORLD_MAX as int)) by (nonlinear_arith)
                    requires
                        0 <= sum.x@ <= (cfg.samples as int) * (WORLD_MAX as int),
                        cfg.samples as int <= 65536;
                assert(mag(sum.y@) <= 65536 * (WORLD_MAX as int)) by (nonlinear_arith)
                    requires
                        0 <= sum.y@ <= (cfg.samples as int) * (WORLD_MAX as int),
                        cfg.samples as int <= 65536;
                assert(mag(sum.z@) <= 65536 * (WORLD_MAX as int)) by (nonlinear_arith)
                    requires
                        0 <= sum.z@ <= (cfg.samples as int) * (WORLD_MAX as int),
                        cfg.samples as int <= 65536;
            }
            paint(&mut out, &sum, cfg.samples);
            proof {
                let prev = sums;
                sums = sums.push(sum);
                assert(sums.drop_last() =~= prev);
                assert(sums.last() == sum);
            }
            j = j + 1;
        }
        proof {
            assert((hi - i - 1) * cfg.width as int + cfg.width as int == (hi - i)
                * cfg.width as int) by (nonlinear_arith);
        }
    }
    proof {
        assert(sums.len() == band_pixels(cfg, t as int)) by {
            assert(hi as int == band_hi(cfg, t as int));
            assert((hi - lo) * cfg.width as int == band_pixels(cfg, t as int));
        }
    }
    out
}

/// The first report carrying band index `t`.
pub open spec fn find_band(bands: Seq<(usize, Vec<u8>)>, t: int, from: int) -> Option<int>
    decreases bands.len() - from,
{
    if from < 0 || from >= bands.len() {
        None
    } else if bands[from].0 as int == t {
        Some(from)
    } else {
        find_band(bands, t, from + 1)
    }
}

/// The band texts concatenated in descending band order (the top of the
/// image belongs to the last band).
pub open spec fn cat_desc(bands: Seq<(usize, Vec<u8>)>, k: int) -> Seq<u8>
    decreases k,
{
    if k <= 0 {
        Seq::empty()
    } else {
        match find_band(bands, k - 1, 0) {
            Some(idx) => bands[idx].1@ + cat_desc(bands, k - 1),
            None => cat_desc(bands, k - 1),
        }
    }
}

/// Whether every band index below `k` has a report.
pub open spec fn all_bands_present(bands: Seq<(usize, Vec<u8>)>, k: int) -> bool {
    forall|t: int| 0 <= t < k ==> find_band(bands, t, 0) is Some
}

/// Reassembles worker reports into the final image bytes: the header, then
/// each band's text in descending band order, whatever order the reports
/// arrived in.  Fails if some band never reported.
pub fn assemble(bands: &Vec<(usize, Vec<u8>)>, cfg: RenderConfig) -> (res: Result<
    Vec<u8>,
    RenderError,
>)
    requires
        cfg_wf(cfg),
    ensures
        res matches Ok(img) ==> all_bands_present(bands@, cfg.threads as int) && img@
            == header_spec(cfg) + cat_desc(bands@, cfg.threads as int),
        res is Err ==> !all_bands_present(bands@, cfg.threads as int),
{
    let mut out: Vec<u8> = Vec::new();
    out.push(80);
    out.push(51);
    out.push(10);
    push_dec(&mut out, cfg.width);
    out.push(32);
    push_dec(&mut out, cfg.height);
    out.push(10);
    out.push(50);
    out.push(53);
    out.push(53);
    out.push(10);
    proof {
        assert(out@ =~= header_spec(cfg));
    }
    let mut t: usize = cfg.threads;
    while t > 0
        invariant
            cfg_wf(cfg),
            t <= cfg.threads,
            out@ + cat_desc(bands@, t as int) == header_spec(cfg) + cat_desc(
                bands@,
                cfg.threads as int,
            ),
            forall|k: int| t as int <= k < cfg.threads as int ==> find_band(bands@, k, 0) is Some,
        decreases t,
    {
        t = t - 1;
        let idx = match find_band_exec(bands, t) {
            Some(i) => i,
            None => {
                return Err(RenderError::MissingBand);
            },
        };
        let ghost before = out@;
        let src = &bands[idx].1;
        let mut b: usize = 0;
        while b < src.len()
            invariant
                b <= src@.len(),
                out@ == before + src@.subrange(0, b as int),
            decreases src@.len() - b,
        {
            out.push(src[b]);
            proof {
                assert(out@ =~= before + src@.subrange(0, b as int + 1));
            }
            b = b + 1;
        }
        proof {
            assert(src@.subrange(0, src@.len() as int) =~= src@);
            assert(out@ == before + bands@[idx as int].1@);
            assert(cat_desc(bands@, t as int + 1) == bands@[idx as int].1@ + cat_desc(
                bands@,
                t as int,
            ));
            assert(out@ + cat_desc(bands@, t as int) =~= before + (bands@[idx as int].1@
                + cat_desc(bands@, t as int)));
            assert(before + cat_desc(bands@, t as int + 1) =~= before + (bands@[idx as int].1@
                + cat_desc(bands@, t as int)));
        }
    }
    proof {
        assert(cat_desc(bands@, 0) =~= Seq::<u8>::empty());
        assert(out@ + Seq::<u8>::empty() =~= out@);
    }
    Ok(out)
}

/// Finds the first report carrying band index `t`.
fn find_band_exec(bands: &Vec<(usize, Vec<u8>)>, t: usize) -> (res: Option<usize>)
    ensures
        match res {
            Some(i) => i < bands@.len() && find_band(bands@, t as int, 0) == Some(i as int),
            None => find_band(bands@, t as int, 0) is None,
        },
{
    let mut idx: usize = 0;
    while idx < bands.len()
        invariant
            idx <= bands@.len(),
            find_band(bands@, t as int, 0) == find_band(bands@, t as int, idx as int),
        decreases bands@.len() - idx,
    {
        if bands[idx].0 == t {
            return Some(idx);
        }
        idx = idx + 1;
    }
    None
}

} // verus!
