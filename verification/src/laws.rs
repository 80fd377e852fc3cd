//! Laws of the surface and shading model, stated and proved once over the
//! spec functions that the executable contracts use.

use vstd::prelude::*;
use crate::fixed::{
    SCALE, fx, fx_mul, fx_div, mag, floor_units, lemma_fx_mul_one, lemma_fx_mul_zero,
};
use crate::vec3::{Vec3, dot_spec, in_world};
use crate::ray::Ray;
use crate::hittable::{
    HitRecord, Surface, Translate, surf_hit_det, lemma_normal_against_ray, rot_fwd_x, rot_fwd_z,
    rot_back_x, rot_back_z,
};
use crate::sphere::{Sphere, sphere_hit_spec, sphere_hit_t};
use crate::material::dielectric_ratio;
use crate::perlin::{
    Perlin, perlin_wf, noise_spec, corner_spec, term_spec, smooth_spec, weight_spec, cell_of,
};

verus! {

/// A sphere's reported normal never points along the incoming ray: the
/// record stores the outward normal flipped, when needed, to face the ray.
pub proof fn lemma_sphere_normal_against_ray(s: Sphere, r: Ray, t0: int, t1: int)
    ensures
        sphere_hit_spec(s, r, t0, t1) matches Some(rec) ==> dot_spec(r.dir, rec.normal) <= 0,
{
    match sphere_hit_spec(s, r, t0, t1) {
        Some(rec) => {
            let t = sphere_hit_t(s.center, s.radius@, r, t0, t1).unwrap();
            let p = Vec3 {
                x: fx(crate::ray::at_x(r, t)),
                y: fx(crate::ray::at_y(r, t)),
                z: fx(crate::ray::at_z(r, t)),
            };
            let ow = Vec3 {
                x: fx(fx_div(p.x@ - s.center.x@, s.radius@)),
                y: fx(fx_div(p.y@ - s.center.y@, s.radius@)),
                z: fx(fx_div(p.z@ - s.center.z@, s.radius@)),
            };
            assert(in_world(ow));
            lemma_normal_against_ray(r, ow);
        },
        None => {},
    }
}

/// A sphere's reported parameter always lies in the queried interval
/// `(t0, t1]` — the root-selection rule admits no other value.
pub proof fn lemma_sphere_hit_in_range(s: Sphere, r: Ray, t0: int, t1: int)
    requires
        mag(t0) <= crate::vec3::WORLD_MAX as int,
        mag(t1) <= crate::vec3::WORLD_MAX as int,
    ensures
        sphere_hit_spec(s, r, t0, t1) matches Some(rec) ==> t0 < rec.t@ <= t1,
{
    match sphere_hit_spec(s, r, t0, t1) {
        Some(rec) => {
            let t = sphere_hit_t(s.center, s.radius@, r, t0, t1).unwrap();
            assert(t0 < t <= t1);
            assert(rec.t == fx(t));
        },
        None => {},
    }
}

/// Intersecting a translated surface is intersecting the surface itself
/// with the ray shifted back by the offset: the hit point comes back
/// shifted forward by the offset, and the parameter, surface coordinates,
/// normal, face flag and material handle are the inner record's own —
/// as long as the shift stays within world range.
pub proof fn lemma_translate_round_trip(tr: Translate, r: Ray, t0: int, t1: int)
    requires
        in_world(
            Vec3 {
                x: fx(r.origin.x@ - tr.offset.x@),
                y: fx(r.origin.y@ - tr.offset.y@),
                z: fx(r.origin.z@ - tr.offset.z@),
            },
        ),
    ensures
        ({
            let moved = Ray {
                origin: Vec3 {
                    x: fx(r.origin.x@ - tr.offset.x@),
                    y: fx(r.origin.y@ - tr.offset.y@),
                    z: fx(r.origin.z@ - tr.offset.z@),
                },
                dir: r.dir,
                time: r.time,
            };
            surf_hit_det(Surface::Translate(tr), r, t0, t1) == match surf_hit_det(
                *tr.ptr,
                moved,
                t0,
                t1,
            ) {
                None => None::<HitRecord>,
                Some(rec0) => {
                    let p = Vec3 {
                        x: fx(rec0.point.x@ + tr.offset.x@),
                        y: fx(rec0.point.y@ + tr.offset.y@),
                        z: fx(rec0.point.z@ + tr.offset.z@),
                    };
                    if in_world(p) {
                        Some(HitRecord { point: p, ..rec0 })
                    } else {
                        None
                    }
                },
            }
        }),
{
}

/// A quarter turn about the `y` axis, mapped into object space and back,
/// recovers both coordinates exactly: with `sin = 1` and `cos = 0` every
/// fixed-point product in the rotation is exact.
pub proof fn lemma_quarter_turn_round_trip(x: int, z: int)
    ensures
        rot_back_x(0, SCALE as int, rot_fwd_x(0, SCALE as int, x, z), rot_fwd_z(0, SCALE as int, x, z)) == x,
        rot_back_z(0, SCALE as int, rot_fwd_x(0, SCALE as int, x, z), rot_fwd_z(0, SCALE as int, x, z)) == z,
{
    lemma_fx_mul_one(x);
    lemma_fx_mul_one(z);
    lemma_fx_mul_one(-z);
    lemma_fx_mul_zero(x);
    lemma_fx_mul_zero(z);
    lemma_fx_mul_zero(-z);
    lemma_fx_mul_zero(rot_fwd_x(0, SCALE as int, x, z));
    lemma_fx_mul_zero(rot_fwd_z(0, SCALE as int, x, z));
    lemma_fx_mul_one(rot_fwd_x(0, SCALE as int, x, z));
    lemma_fx_mul_one(rot_fwd_z(0, SCALE as int, x, z));
}

/// The inverse rotation (the same angle with the sine negated) maps a
/// point with exactly the arithmetic of the object-to-world map: rounding
/// toward zero is symmetric, so negating the sine commutes with every
/// product.  Following a rotation by its own inverse is therefore exactly
/// the world-to-object map followed by the object-to-world map.
pub proof fn lemma_rotate_inverse_maps(c: int, s: int, x: int, z: int)
    ensures
        rot_fwd_x(c, -s, x, z) == rot_back_x(c, s, x, z),
        rot_fwd_z(c, -s, x, z) == rot_back_z(c, s, x, z),
{
    crate::fixed::lemma_fx_mul_neg_left(s, z);
    crate::fixed::lemma_fx_mul_neg_left(s, x);
}

/// A dielectric with index of refraction one uses a unit refraction ratio
/// on both faces, and total internal reflection can never trigger: the
/// ratio leaves any feasible sine unchanged, so it never exceeds one.
pub proof fn lemma_unit_dielectric_never_bends(front: bool, sin_theta: int)
    requires
        0 <= sin_theta <= SCALE as int,
    ensures
        dielectric_ratio(SCALE as int, front) == SCALE as int,
        fx_mul(dielectric_ratio(SCALE as int, front), sin_theta) == sin_theta,
        fx_mul(dielectric_ratio(SCALE as int, front), sin_theta) <= SCALE as int,
{
    crate::fixed::lemma_rtz_mag((SCALE as int) * (SCALE as int), SCALE as int);
    assert(mag((SCALE as int) * (SCALE as int)) == (SCALE as int) * (SCALE as int))
        by (nonlinear_arith);
    vstd::arithmetic::div_mod::lemma_div_multiples_vanish(SCALE as int, SCALE as int);
    assert(fx_div(SCALE as int, SCALE as int) == SCALE as int);
    lemma_fx_mul_one(sin_theta);
}

/// Noise sampled exactly at a lattice corner answers the stored scalar for
/// that corner: all smoothed offsets vanish, so the trilinear blend
/// collapses to the near corner with an exact unit weight.
pub proof fn lemma_noise_at_lattice(pl: Perlin, p: Vec3)
    requires
        perlin_wf(pl),
        p.x@ % (SCALE as int) == 0,
        p.y@ % (SCALE as int) == 0,
        p.z@ % (SCALE as int) == 0,
    ensures
        noise_spec(pl, p) == corner_spec(pl, cell_of(p.x@), cell_of(p.y@), cell_of(p.z@)),
{
    reveal(crate::perlin::noise_spec);
    reveal(crate::perlin::term_spec);
    vstd::arithmetic::div_mod::lemma_fundamental_div_mod(p.x@, SCALE as int);
    vstd::arithmetic::div_mod::lemma_fundamental_div_mod(p.y@, SCALE as int);
    vstd::arithmetic::div_mod::lemma_fundamental_div_mod(p.z@, SCALE as int);
    let ci = cell_of(p.x@);
    let cj = cell_of(p.y@);
    let ck = cell_of(p.z@);
    assert(p.x@ - floor_units(p.x@) * (SCALE as int) == 0) by (nonlinear_arith)
        requires
            p.x@ == (SCALE as int) * floor_units(p.x@) + p.x@ % (SCALE as int),
            p.x@ % (SCALE as int) == 0;
    assert(p.y@ - floor_units(p.y@) * (SCALE as int) == 0) by (nonlinear_arith)
        requires
            p.y@ == (SCALE as int) * floor_units(p.y@) + p.y@ % (SCALE as int),
            p.y@ % (SCALE as int) == 0;
    assert(p.z@ - floor_units(p.z@) * (SCALE as int) == 0) by (nonlinear_arith)
        requires
            p.z@ == (SCALE as int) * floor_units(p.z@) + p.z@ % (SCALE as int),
            p.z@ % (SCALE as int) == 0;
    lemma_fx_mul_zero(0);
    assert(smooth_spec(0) == 0) by {
        lemma_fx_mul_zero(0);
        lemma_fx_mul_zero(3 * (SCALE as int));
        assert(fx_mul(0, 0) == 0);
        assert(fx_mul(0, 3 * (SCALE as int) - 0) == 0);
    }
    let c000 = corner_spec(pl, ci, cj, ck);
    assert(term_spec(pl, ci, cj, ck, 0, 0, 0, 0, 0, 0) == c000) by {
        reveal(crate::perlin::term_spec);
        lemma_fx_mul_one(SCALE as int);
        lemma_fx_mul_one(c000);
        assert(weight_spec(0, 0) == SCALE as int);
    }
    assert forall|di: int, dj: int, dk: int|
        0 <= di <= 1 && 0 <= dj <= 1 && 0 <= dk <= 1 && di + dj + dk > 0 implies term_spec(
        pl,
        ci,
        cj,
        ck,
        di,
        dj,
        dk,
        0,
        0,
        0,
    ) == 0 by {
        reveal(crate::perlin::term_spec);
        let wu = weight_spec(di, 0);
        let wv = weight_spec(dj, 0);
        let ww = weight_spec(dk, 0);
        let c = corner_spec(pl, ci + di, cj + dj, ck + dk);
        lemma_fx_mul_zero(wu);
        lemma_fx_mul_zero(wv);
        lemma_fx_mul_zero(ww);
        lemma_fx_mul_zero(c);
        lemma_fx_mul_one(wv);
        lemma_fx_mul_one(ww);
        if di == 1 {
            assert(wu == 0);
            assert(fx_mul(wu, wv) == 0);
            assert(fx_mul(0, ww) == 0);
            assert(fx_mul(0, c) == 0);
        } else if dj == 1 {
            assert(wv == 0);
            assert(fx_mul(wu, 0) == 0);
            assert(fx_mul(0, ww) == 0);
            assert(fx_mul(0, c) == 0);
        } else {
            assert(ww == 0);
            assert(fx_mul(fx_mul(wu, wv), 0) == 0);
            assert(fx_mul(0, c) == 0);
        }
    }
}

} // verus!
