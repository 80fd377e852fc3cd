//! Reflection, refraction and normalization of vectors, and the random
//! direction samplers.

use vstd::prelude::*;
use crate::fixed::{
    Fx, SCALE, fx, fx_mul, fx_div, fx_sqrt, mag, lemma_fx_mul_bound, lemma_fx_div_fits,
    lemma_sqrt_exists,
};
use crate::vec3::{Vec3, dot, dot_spec, v3_bounded, in_world, WORLD_MAX};

verus! {

/// The vector scaled to unit length: each component divided by the
/// fixed-point length.
pub open spec fn unit_spec(v: Vec3) -> Vec3 {
    let m = fx_sqrt(dot_spec(v, v));
    Vec3 { x: fx(fx_div(v.x@, m)), y: fx(fx_div(v.y@, m)), z: fx(fx_div(v.z@, m)) }
}

/// Mirror reflection of `v` about the normal `n`:
/// `v - 2 * dot(v, n) * n`.
pub open spec fn reflect_spec(v: Vec3, n: Vec3) -> Vec3 {
    let d = dot_spec(v, n);
    Vec3 {
        x: fx(v.x@ - 2 * fx_mul(n.x@, d)),
        y: fx(v.y@ - 2 * fx_mul(n.y@, d)),
        z: fx(v.z@ - 2 * fx_mul(n.z@, d)),
    }
}

/// Snell refraction of the unit direction `uv` at normal `n` with ratio
/// `eta`: the perpendicular part `(uv + n cos) * eta` plus the parallel
/// part `-n * sqrt(|1 - |perp|^2|)`, with `cos` clamped at one.
pub open spec fn refract_spec(uv: Vec3, n: Vec3, eta: int) -> Vec3 {
    let d = dot_spec(uv, n);
    let cos = if -d <= SCALE as int {
        -d
    } else {
        SCALE as int
    };
    let px = fx_mul(uv.x@ + fx_mul(n.x@, cos), eta);
    let py = fx_mul(uv.y@ + fx_mul(n.y@, cos), eta);
    let pz = fx_mul(uv.z@ + fx_mul(n.z@, cos), eta);
    let psq = fx_mul(px, px) + fx_mul(py, py) + fx_mul(pz, pz);
    let k = fx_sqrt(mag(SCALE as int - psq));
    Vec3 {
        x: fx(px + fx_mul(n.x@, -k)),
        y: fx(py + fx_mul(n.y@, -k)),
        z: fx(pz + fx_mul(n.z@, -k)),
    }
}

/// Normalizes a vector with nonzero fixed-point length.
pub fn unit(v: &Vec3) -> (r: Vec3)
    requires
        in_world(*v),
        fx_sqrt(dot_spec(*v, *v)) > 0,
    ensures
        r == unit_spec(*v),
        v3_bounded(r, 0x4000_0000_0000),
{
    let m = v.modulus();
    proof {
        lemma_fx_div_fits(v.x@, m@, WORLD_MAX as int);
        lemma_fx_div_fits(v.y@, m@, WORLD_MAX as int);
        lemma_fx_div_fits(v.z@, m@, WORLD_MAX as int);
    }
    Vec3::new(v.x.div(m), v.y.div(m), v.z.div(m))
}

/// Mirror reflection about a normal.
pub fn reflect(v: &Vec3, n: &Vec3) -> (r: Vec3)
    requires
        v3_bounded(*v, 4 * SCALE as int),
        v3_bounded(*n, 4 * SCALE as int),
    ensures
        r == reflect_spec(*v, *n),
        v3_bounded(r, 0x1800_0000),
{
    let d = dot(v, n);
    proof {
        lemma_reflect_bounds(*v, *n);
    }
    Vec3::new(
        Fx::from_raw(v.x.raw - 2 * n.x.mul(d).raw),
        Fx::from_raw(v.y.raw - 2 * n.y.mul(d).raw),
        Fx::from_raw(v.z.raw - 2 * n.z.mul(d).raw),
    )
}

/// Bounds for the reflection arithmetic: with both vectors within four
/// units, the dot product and the corrected components stay far from
/// overflow.
proof fn lemma_reflect_bounds(v: Vec3, n: Vec3)
    requires
        v3_bounded(v, 4 * SCALE as int),
        v3_bounded(n, 4 * SCALE as int),
    ensures
        mag(dot_spec(v, n)) <= 48 * SCALE as int,
        mag(fx_mul(n.x@, dot_spec(v, n))) <= 192 * SCALE as int,
        mag(fx_mul(n.y@, dot_spec(v, n))) <= 192 * SCALE as int,
        mag(fx_mul(n.z@, dot_spec(v, n))) <= 192 * SCALE as int,
{
    lemma_fx_mul_bound(v.x@, n.x@, 4 * SCALE as int, 4 * SCALE as int);
    lemma_fx_mul_bound(v.y@, n.y@, 4 * SCALE as int, 4 * SCALE as int);
    lemma_fx_mul_bound(v.z@, n.z@, 4 * SCALE as int, 4 * SCALE as int);
    assert(4 * (SCALE as int) * (4 * (SCALE as int)) == 16 * (SCALE as int) * (SCALE as int))
        by (nonlinear_arith);
    assert(16 * (SCALE as int) * (SCALE as int) / (SCALE as int) == 16 * (SCALE as int))
        by (nonlinear_arith);
    let d = dot_spec(v, n);
    lemma_fx_mul_bound(n.x@, d, 4 * SCALE as int, 48 * SCALE as int);
    lemma_fx_mul_bound(n.y@, d, 4 * SCALE as int, 48 * SCALE as int);
    lemma_fx_mul_bound(n.z@, d, 4 * SCALE as int, 48 * SCALE as int);
    assert(4 * (SCALE as int) * (48 * (SCALE as int)) == 192 * (SCALE as int) * (SCALE as int))
        by (nonlinear_arith);
    assert(192 * (SCALE as int) * (SCALE as int) / (SCALE as int) == 192 * (SCALE as int))
        by (nonlinear_arith);
}

/// Snell refraction.
pub fn refract(uv: &Vec3, n: &Vec3, eta: Fx) -> (r: Vec3)
    requires
        v3_bounded(*uv, 4 * SCALE as int),
        v3_bounded(*n, 4 * SCALE as int),
        0 <= eta@ <= 4 * SCALE as int,
    ensures
        r == refract_spec(*uv, *n, eta@),
        v3_bounded(r, 0x5_0000_0000),
{
    let d = dot(uv, n);
    proof {
        lemma_fx_mul_bound(uv.x@, n.x@, 4 * SCALE as int, 4 * SCALE as int);
        lemma_fx_mul_bound(uv.y@, n.y@, 4 * SCALE as int, 4 * SCALE as int);
        lemma_fx_mul_bound(uv.z@, n.z@, 4 * SCALE as int, 4 * SCALE as int);
        assert(4 * (SCALE as int) * (4 * (SCALE as int)) / (SCALE as int) == 16 * (SCALE as int))
            by (nonlinear_arith);
    }
    let cos = if -d.raw <= SCALE {
        Fx::from_raw(-d.raw)
    } else {
        Fx::one()
    };
    proof {
        lemma_refract_bounds(*uv, *n, eta@, cos@);
    }
    let px = uv.x.add(n.x.mul(cos)).mul(eta);
    let py = uv.y.add(n.y.mul(cos)).mul(eta);
    let pz = uv.z.add(n.z.mul(cos)).mul(eta);
    let perp = Vec3::new(px, py, pz);
    proof {
        lemma_fx_mul_bound(px@, px@, 784 * SCALE as int, 784 * SCALE as int);
        lemma_fx_mul_bound(py@, py@, 784 * SCALE as int, 784 * SCALE as int);
        lemma_fx_mul_bound(pz@, pz@, 784 * SCALE as int, 784 * SCALE as int);
        assert(784 * (SCALE as int) * (784 * (SCALE as int)) / (SCALE as int) == 614656 * (
        SCALE as int)) by (nonlinear_arith);
    }
    let psq = perp.modsq();
    let rest = Fx::from_raw(SCALE - psq.raw).abs();
    proof {
        lemma_sqrt_exists(rest@ * (SCALE as int));
    }
    let k = rest.sqrt();
    proof {
        lemma_refract_k_bound(rest@, k@);
        lemma_fx_mul_bound(n.x@, -k@, 4 * SCALE as int, 0x1_0000_0000);
        lemma_fx_mul_bound(n.y@, -k@, 4 * SCALE as int, 0x1_0000_0000);
        lemma_fx_mul_bound(n.z@, -k@, 4 * SCALE as int, 0x1_0000_0000);
        assert(4 * (SCALE as int) * 0x1_0000_0000 / (SCALE as int) == 0x4_0000_0000)
            by (nonlinear_arith);
    }
    Vec3::new(
        Fx::from_raw(px.raw + n.x.mul(k.neg()).raw),
        Fx::from_raw(py.raw + n.y.mul(k.neg()).raw),
        Fx::from_raw(pz.raw + n.z.mul(k.neg()).raw),
    )
}

/// Bounds for the refraction arithmetic.
proof fn lemma_refract_bounds(uv: Vec3, n: Vec3, eta: int, cos: int)
    requires
        v3_bounded(uv, 4 * SCALE as int),
        v3_bounded(n, 4 * SCALE as int),
        0 <= eta <= 4 * SCALE as int,
        mag(cos) <= 48 * SCALE as int,
    ensures
        mag(fx_mul(n.x@, cos)) <= 192 * SCALE as int,
        mag(fx_mul(n.y@, cos)) <= 192 * SCALE as int,
        mag(fx_mul(n.z@, cos)) <= 192 * SCALE as int,
        mag(fx_mul(uv.x@ + fx_mul(n.x@, cos), eta)) <= 784 * SCALE as int,
        mag(fx_mul(uv.y@ + fx_mul(n.y@, cos), eta)) <= 784 * SCALE as int,
        mag(fx_mul(uv.z@ + fx_mul(n.z@, cos), eta)) <= 784 * SCALE as int,
{
    lemma_fx_mul_bound(n.x@, cos, 4 * SCALE as int, 48 * SCALE as int);
    lemma_fx_mul_bound(n.y@, cos, 4 * SCALE as int, 48 * SCALE as int);
    lemma_fx_mul_bound(n.z@, cos, 4 * SCALE as int, 48 * SCALE as int);
    assert(4 * (SCALE as int) * (48 * (SCALE as int)) / (SCALE as int) == 192 * (SCALE as int))
        by (nonlinear_arith);
    lemma_fx_mul_bound(uv.x@ + fx_mul(n.x@, cos), eta, 196 * SCALE as int, 4 * SCALE as int);
    lemma_fx_mul_bound(uv.y@ + fx_mul(n.y@, cos), eta, 196 * SCALE as int, 4 * SCALE as int);
    lemma_fx_mul_bound(uv.z@ + fx_mul(n.z@, cos), eta, 196 * SCALE as int, 4 * SCALE as int);
    assert(196 * (SCALE as int) * (4 * (SCALE as int)) / (SCALE as int) == 784 * (SCALE as int))
        by (nonlinear_arith);
}

/// The square root of the clamped remainder stays small.
proof fn lemma_refract_k_bound(rest: int, k: int)
    requires
        0 <= rest,
        rest <= 0x1_0000_0000_0000,
        k == crate::fixed::sqrt_floor(rest * (SCALE as int)),
    ensures
        0 <= k <= 0x1_0000_0000,
{
    lemma_sqrt_exists(rest * (SCALE as int));
    assert(k * k <= rest * (SCALE as int));
    assert(rest * (SCALE as int) <= 0x1_0000_0000_0000 * (SCALE as int)) by (nonlinear_arith)
        requires
            0 <= rest <= 0x1_0000_0000_0000;
    assert(k <= 0x1_0000_0000) by (nonlinear_arith)
        requires
            0 <= k,
            k * k <= 0x1_0000_0000_0000 * 65536;
}

impl Vec3 {
    /// The vector scaled to unit length (the fixed-point length must be
    /// nonzero; callers test it first).
    pub fn unit(&self) -> (r: Vec3)
        requires
            in_world(*self),
            fx_sqrt(dot_spec(*self, *self)) > 0,
        ensures
            r == unit_spec(*self),
            v3_bounded(r, 0x4000_0000_0000),
    {
        unit(self)
    }
}

/// A random direction of roughly unit length: rejection sampling in the
/// cube, normalized; after sixteen failures, the positive `x` axis.
pub fn random_unit_sphere(rng: &mut rand::rngs::ThreadRng) -> (r: Vec3)
    ensures
        v3_bounded(r, 16 * SCALE as int),
{
    let lo = Fx::from_raw(-SCALE);
    let hi = Fx::one();
    let mut tries: u32 = 0;
    while tries < 16
        invariant
            tries <= 16,
            lo@ == -(SCALE as int),
            hi@ == SCALE as int,
        decreases 16 - tries,
    {
        tries = tries + 1;
        let x = crate::rng::rand_range(rng, lo, hi);
        let y = crate::rng::rand_range(rng, lo, hi);
        let z = crate::rng::rand_range(rng, lo, hi);
        let v = Vec3::new(x, y, z);
        let m = v.modsq();
        if m.raw >= 1024 && m.raw <= SCALE {
            let len = v.modulus();
            if len.raw > 0 {
                proof {
                    lemma_fx_div_fits(v.x@, len@, SCALE as int);
                    lemma_fx_div_fits(v.y@, len@, SCALE as int);
                    lemma_fx_div_fits(v.z@, len@, SCALE as int);
                }
                let u = Vec3::new(v.x.div(len), v.y.div(len), v.z.div(len));
                if u.x.raw <= 16 * SCALE && u.x.raw >= -16 * SCALE && u.y.raw <= 16 * SCALE
                    && u.y.raw >= -16 * SCALE && u.z.raw <= 16 * SCALE && u.z.raw >= -16 * SCALE {
                    return u;
                }
            }
        }
    }
    Vec3::new(Fx::one(), Fx::zero(), Fx::zero())
}

/// A random point on the unit circle in the lens plane (`z` is zero):
/// rejection sampling in the square, normalized; after sixteen failures,
/// the positive `x` axis.
pub fn random_unit_disk(rng: &mut rand::rngs::ThreadRng) -> (r: Vec3)
    ensures
        v3_bounded(r, 16 * SCALE as int),
        r.z@ == 0,
{
    let lo = Fx::from_raw(-SCALE);
    let hi = Fx::one();
    let mut tries: u32 = 0;
    while tries < 16
        invariant
            tries <= 16,
            lo@ == -(SCALE as int),
            hi@ == SCALE as int,
        decreases 16 - tries,
    {
        tries = tries + 1;
        let x = crate::rng::rand_range(rng, lo, hi);
        let y = crate::rng::rand_range(rng, lo, hi);
        let v = Vec3::new(x, y, Fx::zero());
        let m = v.modsq();
        if m.raw >= 1024 && m.raw <= SCALE {
            let len = v.modulus();
            if len.raw > 0 {
                proof {
                    lemma_fx_div_fits(v.x@, len@, SCALE as int);
                    lemma_fx_div_fits(v.y@, len@, SCALE as int);
                }
                let ux = v.x.div(len);
                let uy = v.y.div(len);
                if ux.raw <= 16 * SCALE && ux.raw >= -16 * SCALE && uy.raw <= 16 * SCALE
                    && uy.raw >= -16 * SCALE {
                    return Vec3::new(ux, uy, Fx::zero());
                }
            }
        }
    }
    Vec3::new(Fx::one(), Fx::zero(), Fx::zero())
}

} // verus!
