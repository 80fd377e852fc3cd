//! Gradient-free value noise: 256 stored scalars, three shuffled
//! permutation tables, and trilinear interpolation with Hermite smoothing.

use vstd::prelude::*;
use vstd::pervasive::VecAdditionalExecFns;
use crate::fixed::{Fx, SCALE, fx_mul, mag, floor_units, lemma_fx_mul_bound, lemma_fx_mul_signs};
use crate::vec3::{Point3, in_world};

verus! {

/// Number of stored scalars and table entries.
pub const POINT_COUNT: usize = 256;

/// Immutable noise state: 256 uniform scalars in `[0, 1)` and three
/// independently shuffled permutations of `[0, 256)`.
pub struct Perlin {
    pub ranfloat: Vec<Fx>,
    pub perm_x: Vec<usize>,
    pub perm_y: Vec<usize>,
    pub perm_z: Vec<usize>,
}

/// A table is a permutation: 256 entries, each below 256, no two equal.
pub open spec fn perm_wf(p: Seq<usize>) -> bool {
    &&& p.len() == 256
    &&& forall|i: int| 0 <= i < 256 ==> #[trigger] p[i] < 256
    &&& forall|i: int, j: int| 0 <= i < j < 256 ==> p[i] != p[j]
}

/// Scalars in `[0, 1)`, tables shuffled permutations.
pub open spec fn perlin_wf(pl: Perlin) -> bool {
    &&& pl.ranfloat@.len() == 256
    &&& forall|i: int| 0 <= i < 256 ==> 0 <= (#[trigger] pl.ranfloat@[i])@ < SCALE as int
    &&& perm_wf(pl.perm_x@)
    &&& perm_wf(pl.perm_y@)
    &&& perm_wf(pl.perm_z@)
}

/// Hermite smoothing `u * u * (3 - 2u)` of a cell offset.
pub open spec fn smooth_spec(u: int) -> int {
    fx_mul(fx_mul(u, u), 3 * (SCALE as int) - 2 * u)
}

/// The lattice cell of a raw coordinate, clamped below at zero exactly as
/// the conversion to an index does.
pub open spec fn cell_of(c: int) -> int {
    if floor_units(c) < 0 {
        0
    } else {
        floor_units(c)
    }
}

/// The stored scalar at a lattice corner: the three permutation lookups at
/// the wrapped cell indices, combined by exclusive or.
pub open spec fn corner_spec(pl: Perlin, ci: int, cj: int, ck: int) -> int
    recommends
        perlin_wf(pl),
{
    let ix = pl.perm_x@[(ci % 256)] as int;
    let iy = pl.perm_y@[(cj % 256)] as int;
    let iz = pl.perm_z@[(ck % 256)] as int;
    (pl.ranfloat@[(ix as u16 ^ iy as u16 ^ iz as u16) as int])@
}

/// One trilinear weight: the offset for a far corner, its complement for a
/// near one.
pub open spec fn weight_spec(bit: int, u: int) -> int {
    if bit == 1 {
        u
    } else {
        SCALE as int - u
    }
}

/// One corner's contribution to the interpolation.
#[verifier::opaque]
pub open spec fn term_spec(pl: Perlin, ci: int, cj: int, ck: int, di: int, dj: int, dk: int, uu: int, vv: int, ww: int) -> int {
    fx_mul(
        fx_mul(fx_mul(weight_spec(di, uu), weight_spec(dj, vv)), weight_spec(dk, ww)),
        corner_spec(pl, ci + di, cj + dj, ck + dk),
    )
}

/// The full noise value at a point: smoothed offsets within the lattice
/// cell, eight corner scalars, trilinear blend.
#[verifier::opaque]
pub open spec fn noise_spec(pl: Perlin, p: Point3) -> int {
    let ci = cell_of(p.x@);
    let cj = cell_of(p.y@);
    let ck = cell_of(p.z@);
    let uu = smooth_spec(p.x@ - floor_units(p.x@) * (SCALE as int));
    let vv = smooth_spec(p.y@ - floor_units(p.y@) * (SCALE as int));
    let ww = smooth_spec(p.z@ - floor_units(p.z@) * (SCALE as int));
    term_spec(pl, ci, cj, ck, 0, 0, 0, uu, vv, ww) + term_spec(pl, ci, cj, ck, 0, 0, 1, uu, vv, ww)
        + term_spec(pl, ci, cj, ck, 0, 1, 0, uu, vv, ww) + term_spec(
        pl,
        ci,
        cj,
        ck,
        0,
        1,
        1,
        uu,
        vv,
        ww,
    ) + term_spec(pl, ci, cj, ck, 1, 0, 0, uu, vv, ww) + term_spec(
        pl,
        ci,
        cj,
        ck,
        1,
        0,
        1,
        uu,
        vv,
        ww,
    ) + term_spec(pl, ci, cj, ck, 1, 1, 0, uu, vv, ww) + term_spec(
        pl,
        ci,
        cj,
        ck,
        1,
        1,
        1,
        uu,
        vv,
        ww,
    )
}

/// One shuffled permutation of `[0, 256)`: the identity table with each
/// prefix element exchanged with a uniformly drawn one at or below it.
fn generate_perm(rng: &mut rand::rngs::ThreadRng) -> (p: Vec<usize>)
    ensures
        perm_wf(p@),
{
    let mut p: Vec<usize> = Vec::new();
    let mut i: usize = 0;
    while i < 256
        invariant
            i <= 256,
            p@.len() == i,
            forall|k: int| 0 <= k < i ==> #[trigger] p@[k] == k,
        decreases 256 - i,
    {
        p.push(i);
        i = i + 1;
    }
    let mut i: usize = 255;
    while i >= 1
        invariant
            i <= 255,
            p@.len() == 256,
            forall|k: int| 0 <= k < 256 ==> #[trigger] p@[k] < 256,
            forall|k: int, l: int| 0 <= k < l < 256 ==> p@[k] != p@[l],
        decreases i,
    {
        let target = crate::rng::rand_index(rng, i + 1);
        let a = p[i];
        let b = p[target];
        p.set(i, b);
        p.set(target, a);
        i = i - 1;
    }
    p
}

impl Perlin {
    /// Builds fresh noise state from the thread's generator.
    pub fn new(rng: &mut rand::rngs::ThreadRng) -> (pl: Perlin)
        ensures
            perlin_wf(pl),
    {
        let mut ranfloat: Vec<Fx> = Vec::new();
        let mut i: usize = 0;
        while i < 256
            invariant
                i <= 256,
                ranfloat@.len() == i,
                forall|k: int| 0 <= k < i ==> 0 <= (#[trigger] ranfloat@[k])@ < SCALE as int,
            decreases 256 - i,
        {
            let f = crate::rng::rand_unit(rng);
            ranfloat.push(f);
            i = i + 1;
        }
        let perm_x = generate_perm(rng);
        let perm_y = generate_perm(rng);
        let perm_z = generate_perm(rng);
        Perlin { ranfloat, perm_x, perm_y, perm_z }
    }

    /// The noise value at a world point: the blend of eight corner scalars
    /// in `[0, 1)` by weights in `[0, 1]`, so each of the eight summands is
    /// within one unit (the mathematical value never exceeds one; the sum
    /// bound stated here is the per-term one).
    #[verifier::rlimit(100)]
    pub fn noise(&self, p: &Point3) -> (r: Fx)
        requires
            perlin_wf(*self),
            in_world(*p),
        ensures
            r@ == noise_spec(*self, *p),
            0 <= r@ <= 8 * SCALE as int,
    {
        let (qx, rx) = p.x.floor_parts();
        let (qy, ry) = p.y.floor_parts();
        let (qz, rz) = p.z.floor_parts();
        let uu = smooth(Fx::from_raw(rx));
        let vv = smooth(Fx::from_raw(ry));
        let ww = smooth(Fx::from_raw(rz));
        let ci = if qx < 0 {
            0
        } else {
            qx as usize
        };
        let cj = if qy < 0 {
            0
        } else {
            qy as usize
        };
        let ck = if qz < 0 {
            0
        } else {
            qz as usize
        };
        proof {
            assert(ci as int == cell_of(p.x@));
            assert(cj as int == cell_of(p.y@));
            assert(ck as int == cell_of(p.z@));
            assert(uu@ == smooth_spec(p.x@ - floor_units(p.x@) * (SCALE as int)));
            assert(vv@ == smooth_spec(p.y@ - floor_units(p.y@) * (SCALE as int)));
            assert(ww@ == smooth_spec(p.z@ - floor_units(p.z@) * (SCALE as int)));
        }
        let t000 = self.term(ci, cj, ck, 0, 0, 0, uu, vv, ww);
        let t001 = self.term(ci, cj, ck, 0, 0, 1, uu, vv, ww);
        let t010 = self.term(ci, cj, ck, 0, 1, 0, uu, vv, ww);
        let t011 = self.term(ci, cj, ck, 0, 1, 1, uu, vv, ww);
        let t100 = self.term(ci, cj, ck, 1, 0, 0, uu, vv, ww);
        let t101 = self.term(ci, cj, ck, 1, 0, 1, uu, vv, ww);
        let t110 = self.term(ci, cj, ck, 1, 1, 0, uu, vv, ww);
        let t111 = self.term(ci, cj, ck, 1, 1, 1, uu, vv, ww);
        proof {
            reveal(crate::perlin::noise_spec);
        }
        Fx::from_raw(
            t000.raw + t001.raw + t010.raw + t011.raw + t100.raw + t101.raw + t110.raw + t111.raw,
        )
    }

    /// One corner's contribution.
    fn term(&self, ci: usize, cj: usize, ck: usize, di: usize, dj: usize, dk: usize, uu: Fx, vv: Fx, ww: Fx) -> (r: Fx)
        requires
            perlin_wf(*self),
            di <= 1 && dj <= 1 && dk <= 1,
            ci + 1 < usize::MAX && cj + 1 < usize::MAX && ck + 1 < usize::MAX,
            0 <= uu@ <= SCALE as int,
            0 <= vv@ <= SCALE as int,
            0 <= ww@ <= SCALE as int,
        ensures
            r@ == term_spec(*self, ci as int, cj as int, ck as int, di as int, dj as int, dk as int, uu@, vv@, ww@),
            0 <= r@ <= SCALE as int,
    {
        proof {
            reveal(crate::perlin::term_spec);
        }
        let wu = if di == 1 {
            uu
        } else {
            Fx::from_raw(SCALE - uu.raw)
        };
        let wv = if dj == 1 {
            vv
        } else {
            Fx::from_raw(SCALE - vv.raw)
        };
        let ww2 = if dk == 1 {
            ww
        } else {
            Fx::from_raw(SCALE - ww.raw)
        };
        proof {
            lemma_fx_mul_bound(wu@, wv@, 65536, 65536);
            lemma_fx_mul_signs(wu@, wv@);
            assert(65536int * 65536 / 65536 == 65536int);
            lemma_fx_mul_bound(fx_mul(wu@, wv@), ww2@, 65536, 65536);
            lemma_fx_mul_signs(fx_mul(wu@, wv@), ww2@);
        }
        let w12 = wu.mul(wv);
        let w = w12.mul(ww2);
        let kx = ((ci + di) as u64) & 255;
        let ky = ((cj + dj) as u64) & 255;
        let kz = ((ck + dk) as u64) & 255;
        proof {
            lemma_and_255((ci + di) as u64);
            lemma_and_255((cj + dj) as u64);
            lemma_and_255((ck + dk) as u64);
        }
        let ix = self.perm_x[kx as usize];
        let iy = self.perm_y[ky as usize];
        let iz = self.perm_z[kz as usize];
        proof {
            lemma_xor_255(ix as u16, iy as u16, iz as u16);
        }
        let idx = ((ix as u16) ^ (iy as u16) ^ (iz as u16)) as usize;
        let c = self.ranfloat[idx];
        proof {
            lemma_fx_mul_bound(w@, c@, 65536, 65536);
            lemma_fx_mul_signs(w@, c@);
        }
        w.mul(c)
    }
}

/// Hermite smoothing, kept within `[0, 1]`: rounding toward zero never
/// exceeds the true value, and `u * u * (3 - 2u)` is at most one on the
/// unit interval (its distance below one is `(1 - u)^2 (1 + 2u)`).
fn smooth(u: Fx) -> (r: Fx)
    requires
        0 <= u@ < SCALE as int,
    ensures
        r@ == smooth_spec(u@),
        0 <= r@ <= SCALE as int,
{
    proof {
        lemma_fx_mul_bound(u@, u@, SCALE as int, SCALE as int);
        crate::fixed::lemma_fx_mul_self_nonneg(u@);
        lemma_fx_mul_bound(fx_mul(u@, u@), 3 * (SCALE as int) - 2 * u@, SCALE as int, 3 * SCALE as int);
        lemma_fx_mul_signs(fx_mul(u@, u@), 3 * (SCALE as int) - 2 * u@);
        lemma_smooth_unit(u@);
    }
    let u2 = u.mul(u);
    u2.mul(Fx::from_raw(3 * SCALE - 2 * u.raw))
}

/// The smoothed offset never exceeds one unit.
proof fn lemma_smooth_unit(u: int)
    requires
        0 <= u < SCALE as int,
    ensures
        smooth_spec(u) <= SCALE as int,
{
    let a = fx_mul(u, u);
    let r = smooth_spec(u);
    crate::fixed::lemma_fx_mul_self_nonneg(u);
    crate::fixed::lemma_rtz_mag(u * u, SCALE as int);
    assert(mag(u * u) == u * u) by (nonlinear_arith);
    crate::fixed::lemma_fx_mul_signs(a, 3 * (SCALE as int) - 2 * u);
    crate::fixed::lemma_rtz_mag(a * (3 * (SCALE as int) - 2 * u), SCALE as int);
    assert(mag(a * (3 * (SCALE as int) - 2 * u)) == a * (3 * (SCALE as int) - 2 * u))
        by (nonlinear_arith)
        requires
            a >= 0,
            u < 65536;
    assert((65536 - u) * ((65536 - u) * (65536 + 2 * u)) == 65536int * 65536 * 65536 - 3 * 65536
        * (u * u) + 2 * (u * (u * u))) by (nonlinear_arith);
    assert((65536 - u) * ((65536 - u) * (65536 + 2 * u)) >= 0) by (nonlinear_arith)
        requires
            0 <= u <= 65536;
    assert((u * u) * (3 * 65536 - 2 * u) == 3 * 65536 * (u * u) - 2 * (u * (u * u)))
        by (nonlinear_arith);
    assert(r <= 65536) by (nonlinear_arith)
        requires
            0 <= r,
            r * 65536 <= a * (3 * 65536 - 2 * u),
            0 <= a,
            a * 65536 <= u * u,
            (u * u) * (3 * 65536 - 2 * u) <= 65536int * 65536 * 65536,
            0 <= 3 * 65536 - 2 * u;
}

/// Masking with 255 yields the residue modulo 256.
proof fn lemma_and_255(n: u64)
    by (bit_vector)
    ensures
        n & 255 == n % 256,
        n & 255 < 256,
{
}

/// Exclusive or keeps table indices below 256.
proof fn lemma_xor_255(a: u16, b: u16, c: u16)
    by (bit_vector)
    requires
        a < 256,
        b < 256,
        c < 256,
    ensures
        (a ^ b ^ c) < 256,
{
}

} // verus!
