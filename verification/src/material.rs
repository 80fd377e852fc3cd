//! Materials: the closed set of scattering behaviors.

use vstd::prelude::*;
use crate::fixed::{Fx, SCALE, fx, fx_mul, fx_div, mag, lemma_fx_mul_bound, lemma_fx_div_fits};
use crate::vec3::{Color, Vec3, dot, dot_spec, v3_bounded, in_world, WORLD_MAX};
use crate::vec3_ops::{unit, unit_spec, reflect, reflect_spec, refract, refract_spec, random_unit_sphere};
use crate::ray::{Ray, ray_wf};
use crate::hittable::{HitRecord, rec_wf};
use crate::texture::{Texture, SolidColor, tex_wf, tex_value_spec, color_ok};

verus! {

/// Diffuse reflection with an albedo texture.
pub struct Lambertian {
    pub albedo: Texture,
}

/// Mirror reflection with a solid albedo and a fuzz radius.
pub struct Metal {
    pub albedo: Color,
    pub fuzz: Fx,
}

/// A clear material that refracts or reflects by Schlick's approximation.
pub struct Dielectric {
    pub ir: Fx,
}

/// A surface that only emits.
pub struct DiffuseLight {
    pub emit: Texture,
}

/// The phase function of a volumetric medium: uniform scattering.
pub struct Isotropic {
    pub albedo: Texture,
}

/// The closed set of materials.
pub enum Material {
    Lambertian(Lambertian),
    Metal(Metal),
    Dielectric(Dielectric),
    DiffuseLight(DiffuseLight),
    Isotropic(Isotropic),
}

/// Materials are cloneable, shareable values: in this crate they live in
/// the scene's arena and are referenced by handle, so sharing is by index
/// rather than by pointer.
pub trait CoScatter {

}

impl CoScatter for Material {

}

/// Well-formed materials: textures sound, fuzz within one unit, a nonzero
/// index of refraction (the refraction ratio is a quotient by it; ratios
/// outside the workable range are rejected at scatter time, not here).
pub open spec fn mat_wf(m: Material) -> bool {
    match m {
        Material::Lambertian(l) => tex_wf(l.albedo),
        Material::Metal(mt) => in_world(mt.albedo) && 0 <= mt.albedo.x@ && 0 <= mt.albedo.y@ && 0
            <= mt.albedo.z@ && 0 <= mt.fuzz@ <= SCALE as int,
        Material::Dielectric(d) => d.ir@ != 0,
        Material::DiffuseLight(dl) => tex_wf(dl.emit),
        Material::Isotropic(i) => tex_wf(i.albedo),
    }
}

/// The emission of a material: the emission texture for a light, black
/// for everything else.
pub open spec fn emitted_spec(m: Material, u: int, v: int, p: Vec3) -> Color {
    match m {
        Material::DiffuseLight(dl) => tex_value_spec(dl.emit, u, v, p),
        _ => Color { x: fx(0), y: fx(0), z: fx(0) },
    }
}

/// The refraction ratio a dielectric uses on the given face.
pub open spec fn dielectric_ratio(ir: int, front: bool) -> int {
    if front {
        fx_div(SCALE as int, ir)
    } else {
        ir
    }
}

/// The clamped cosine of incidence a dielectric computes from the unit
/// direction and the stored normal.
pub open spec fn dielectric_cos(u0: Vec3, n: Vec3) -> int {
    let ct = -dot_spec(u0, n);
    if ct <= SCALE as int {
        ct
    } else {
        SCALE as int
    }
}

/// The sine of incidence derived from the clamped cosine.
pub open spec fn dielectric_sin(cos: int) -> int {
    let rest = if SCALE as int - fx_mul(cos, cos) >= 0 {
        SCALE as int - fx_mul(cos, cos)
    } else {
        0
    };
    crate::fixed::fx_sqrt(rest)
}

/// Schlick's reflectance, exactly as computed: the base reflectance
/// `((1 - q) / (1 + q))^2` plus its complement scaled by `(1 - cos)^5`
/// (one, defensively, if the base quotient leaves the unit range).
pub open spec fn schlick_spec(cosine: int, ref_idx: int) -> int
    recommends
        0 <= ref_idx,
{
    let r0 = fx_div(SCALE as int - ref_idx, SCALE as int + ref_idx);
    if !(-(SCALE as int) <= r0 <= SCALE as int) {
        SCALE as int
    } else {
        let rr = fx_mul(r0, r0);
        let e1 = SCALE as int - cosine;
        let e5 = fx_mul(fx_mul(fx_mul(e1, e1), fx_mul(e1, e1)), e1);
        rr + fx_mul(SCALE as int - rr, e5)
    }
}

impl Lambertian {
    /// Diffuse reflection of one color.
    pub fn from_color(cl: Color) -> (m: Lambertian)
        ensures
            m.albedo == Texture::SolidColor(SolidColor { color_value: cl }),
    {
        Lambertian { albedo: Texture::SolidColor(SolidColor { color_value: cl }) }
    }

    /// Diffuse reflection of a texture.
    pub fn from_texture(t: Texture) -> (m: Lambertian)
        ensures
            m.albedo == t,
    {
        Lambertian { albedo: t }
    }
}

impl Metal {
    /// Mirror reflection with the given albedo and fuzz radius.
    pub fn new(cl: Color, f: Fx) -> (m: Metal)
        ensures
            m.albedo == cl,
            m.fuzz == f,
    {
        Metal { albedo: cl, fuzz: f }
    }
}

impl Dielectric {
    /// A clear material with the given index of refraction.
    pub fn new(index_of_refraction: Fx) -> (m: Dielectric)
        ensures
            m.ir == index_of_refraction,
    {
        Dielectric { ir: index_of_refraction }
    }
}

impl DiffuseLight {
    /// A light emitting a texture.
    pub fn from_texture(emit: Texture) -> (m: DiffuseLight)
        ensures
            m.emit == emit,
    {
        DiffuseLight { emit }
    }

    /// A light emitting one color.
    pub fn from_color(c: Color) -> (m: DiffuseLight)
        ensures
            m.emit == Texture::SolidColor(SolidColor { color_value: c }),
    {
        DiffuseLight { emit: Texture::SolidColor(SolidColor { color_value: c }) }
    }
}

impl Isotropic {
    /// A uniform phase function of one color.
    pub fn from_color(c: Color) -> (m: Isotropic)
        ensures
            m.albedo == Texture::SolidColor(SolidColor { color_value: c }),
    {
        Isotropic { albedo: Texture::SolidColor(SolidColor { color_value: c }) }
    }

    /// A uniform phase function of a texture.
    pub fn from_texture(a: Texture) -> (m: Isotropic)
        ensures
            m.albedo == a,
    {
        Isotropic { albedo: a }
    }
}

/// The diffuse scatter direction for a drawn sphere sample: the normal
/// plus the sample, or the bare normal when that sum cancels to zero.
pub open spec fn lambertian_dir_spec(normal: Vec3, rv: Vec3) -> Vec3 {
    let d0 = Vec3 {
        x: fx(normal.x@ + rv.x@),
        y: fx(normal.y@ + rv.y@),
        z: fx(normal.z@ + rv.z@),
    };
    if d0.x@ == 0 && d0.y@ == 0 && d0.z@ == 0 {
        normal
    } else {
        d0
    }
}

/// The metal scatter direction for a drawn sphere sample: the mirror
/// reflection fuzzed by the sample scaled by the fuzz radius.
pub open spec fn metal_dir_spec(u0: Vec3, normal: Vec3, fuzz: int, rv: Vec3) -> Vec3 {
    let refl = reflect_spec(u0, normal);
    Vec3 {
        x: fx(refl.x@ + fx_mul(rv.x@, fuzz)),
        y: fx(refl.y@ + fx_mul(rv.y@, fuzz)),
        z: fx(refl.z@ + fx_mul(rv.z@, fuzz)),
    }
}

impl Material {
    /// The light the material emits at a hit.
    pub fn emitted(&self, u: Fx, v: Fx, p: &Vec3) -> (r: Color)
        requires
            mat_wf(*self),
            in_world(*p),
        ensures
            r == emitted_spec(*self, u@, v@, *p),
            color_ok(r),
    {
        match self {
            Material::DiffuseLight(dl) => dl.emit.value(u, v, p),
            _ => Vec3::zero(),
        }
    }

    /// The material's response to a hit: none to absorb (and emit alone),
    /// or an attenuation and a scattered ray.  Scatter directions involve
    /// random samples, so the contract states what holds of every outcome:
    /// the attenuation is the material's own deterministic color, the
    /// scattered ray starts at the hit point with the incoming ray's time,
    /// and for the deterministic materials the direction is pinned up to
    /// the drawn sample.  A light never scatters; a metal only scatters
    /// away from the surface.
    pub fn scatter(
        &self,
        r_in: &Ray,
        rec: &HitRecord,
        rng: &mut rand::rngs::ThreadRng,
    ) -> (res: Option<(Color, Ray)>)
        requires
            mat_wf(*self),
            ray_wf(*r_in),
            rec_wf(*rec),
        ensures
            res matches Some(p) ==> ray_wf(p.1) && p.1.origin == rec.point && p.1.time
                == r_in.time && color_ok(p.0),
            self matches Material::DiffuseLight(_) ==> res is None,
            self matches Material::Isotropic(_) ==> res is Some,
            self matches Material::Lambertian(_) ==> (v3_bounded(
                rec.normal,
                WORLD_MAX as int - 16 * SCALE as int,
            ) ==> res is Some),
            self matches Material::Lambertian(l) ==> (res matches Some(p) ==> p.0
                == tex_value_spec(l.albedo, rec.u@, rec.v@, rec.point) && exists|rv: Vec3|
                v3_bounded(rv, 16 * SCALE as int) && p.1.dir == #[trigger] lambertian_dir_spec(
                    rec.normal,
                    rv,
                )),
            self matches Material::Isotropic(iso) ==> (res matches Some(p) ==> p.0
                == tex_value_spec(iso.albedo, rec.u@, rec.v@, rec.point) && exists|rv: Vec3|
                #[trigger] v3_bounded(rv, 16 * SCALE as int) && p.1.dir == rv),
            self matches Material::Metal(mt) ==> (res matches Some(p) ==> p.0 == mt.albedo
                && dot_spec(p.1.dir, rec.normal) > 0 && exists|rv: Vec3|
                v3_bounded(rv, 16 * SCALE as int) && p.1.dir == #[trigger] metal_dir_spec(
                    unit_spec(r_in.dir),
                    rec.normal,
                    mt.fuzz@,
                    rv,
                )),
            self matches Material::Dielectric(d) ==> (res matches Some(p) ==> ({
                let u0 = unit_spec(r_in.dir);
                let ratio = dielectric_ratio(d.ir@, rec.front_face);
                let cos = dielectric_cos(u0, rec.normal);
                let sin = dielectric_sin(cos);
                &&& p.0 == (Color {
                    x: fx(SCALE as int),
                    y: fx(SCALE as int),
                    z: fx(SCALE as int),
                })
                &&& (p.1.dir == reflect_spec(u0, rec.normal) || p.1.dir == refract_spec(
                    u0,
                    rec.normal,
                    ratio,
                ))
                &&& ((fx_mul(ratio, sin) <= SCALE as int && schlick_spec(cos, ratio) <= 0)
                    ==> p.1.dir == refract_spec(u0, rec.normal, ratio))
            })),
    {
        match self {
            Material::Lambertian(l) => {
                let rv = random_unit_sphere(rng);
                let mut dir = rec.normal.add(rv);
                if dir.near_zero() {
                    dir = rec.normal;
                }
                proof {
                    assert(dir == lambertian_dir_spec(rec.normal, rv));
                }
                if !dir.check_in_world() {
                    return None;
                }
                let att = l.albedo.value(rec.u, rec.v, &rec.point);
                Some((att, Ray::new(rec.point, dir, r_in.time)))
            },
            Material::Metal(mt) => {
                let len = r_in.dir.modulus();
                if len.raw <= 0 {
                    return None;
                }
                let ud = unit(&r_in.dir);
                if !(ud.check_bounded_abs(4 * SCALE) && rec.normal.check_bounded_abs(4 * SCALE)) {
                    return None;
                }
                let reflected = reflect(&ud, &rec.normal);
                let rv = random_unit_sphere(rng);
                proof {
                    lemma_fx_mul_bound(rv.x@, mt.fuzz@, 16 * SCALE as int, SCALE as int);
                    lemma_fx_mul_bound(rv.y@, mt.fuzz@, 16 * SCALE as int, SCALE as int);
                    lemma_fx_mul_bound(rv.z@, mt.fuzz@, 16 * SCALE as int, SCALE as int);
                    assert(16 * (SCALE as int) * (SCALE as int) / (SCALE as int) == 16 * (
                    SCALE as int));
                }
                let dir = Vec3::new(
                    Fx::from_raw(reflected.x.raw + rv.x.mul(mt.fuzz).raw),
                    Fx::from_raw(reflected.y.raw + rv.y.mul(mt.fuzz).raw),
                    Fx::from_raw(reflected.z.raw + rv.z.mul(mt.fuzz).raw),
                );
                proof {
                    assert(dir == metal_dir_spec(unit_spec(r_in.dir), rec.normal, mt.fuzz@, rv));
                }
                if !dir.check_in_world() {
                    return None;
                }
                let d = dot(&dir, &rec.normal);
                if d.raw > 0 {
                    Some((mt.albedo, Ray::new(rec.point, dir, r_in.time)))
                } else {
                    None
                }
            },
            Material::Dielectric(d) => {
                let len = r_in.dir.modulus();
                if len.raw <= 0 {
                    return None;
                }
                let ud = unit(&r_in.dir);
                if !(ud.check_bounded_abs(4 * SCALE) && rec.normal.check_bounded_abs(4 * SCALE)) {
                    return None;
                }
                let ratio = if rec.front_face {
                    proof {
                        lemma_fx_div_fits(SCALE as int, d.ir@, SCALE as int);
                    }
                    Fx::one().div(d.ir)
                } else {
                    d.ir
                };
                if !(ratio.raw >= 0 && ratio.raw <= 4 * SCALE) {
                    return None;
                }
                proof {
                    lemma_fx_mul_bound(ud.x@, rec.normal.x@, 4 * SCALE as int, 4 * SCALE as int);
                    lemma_fx_mul_bound(ud.y@, rec.normal.y@, 4 * SCALE as int, 4 * SCALE as int);
                    lemma_fx_mul_bound(ud.z@, rec.normal.z@, 4 * SCALE as int, 4 * SCALE as int);
                    assert(4 * (SCALE as int) * (4 * (SCALE as int)) / (SCALE as int) == 16 * (
                    SCALE as int)) by (nonlinear_arith);
                }
                let ct = dot(&ud, &rec.normal).neg();
                let cos_theta = ct.min(Fx::one());
                proof {
                    lemma_fx_mul_bound(cos_theta@, cos_theta@, 48 * SCALE as int, 48 * SCALE as int);
                    assert(48 * (SCALE as int) * (48 * (SCALE as int)) / (SCALE as int) == 2304 * (
                    SCALE as int)) by (nonlinear_arith);
                }
                let c2 = cos_theta.mul(cos_theta);
                let rest = if SCALE - c2.raw >= 0 {
                    Fx::from_raw(SCALE - c2.raw)
                } else {
                    Fx::zero()
                };
                proof {
                    crate::fixed::lemma_sqrt_exists(rest@ * (SCALE as int));
                    let s0 = crate::fixed::sqrt_floor(rest@ * (SCALE as int));
                    assert(s0 <= 0x1_0000_0000) by (nonlinear_arith)
                        requires
                            0 <= s0,
                            s0 * s0 <= rest@ * (SCALE as int),
                            0 <= rest@ <= 2305 * 65536;
                }
                let sin_theta = rest.sqrt();
                proof {
                    lemma_fx_mul_bound(ratio@, sin_theta@, 4 * SCALE as int, 0x1_0000_0000);
                }
                let rs = ratio.mul(sin_theta);
                let cannot_refract = rs.raw > SCALE;
                let refl = schlick(cos_theta, ratio);
                let q = crate::rng::rand_unit(rng);
                let dir = if cannot_refract || refl.raw > q.raw {
                    reflect(&ud, &rec.normal)
                } else {
                    refract(&ud, &rec.normal, ratio)
                };
                if !dir.check_in_world() {
                    return None;
                }
                let white = Vec3::new(Fx::one(), Fx::one(), Fx::one());
                Some((white, Ray::new(rec.point, dir, r_in.time)))
            },
            Material::DiffuseLight(_) => None,
            Material::Isotropic(iso) => {
                let dir = random_unit_sphere(rng);
                let att = iso.albedo.value(rec.u, rec.v, &rec.point);
                proof {
                    assert(v3_bounded(dir, 16 * SCALE as int));
                }
                Some((att, Ray::new(rec.point, dir, r_in.time)))
            },
        }
    }
}

/// Schlick's reflectance approximation:
/// `r0 + (1 - r0) (1 - cos)^5` with `r0 = ((1 - q) / (1 + q))^2`.
fn schlick(cosine: Fx, ref_idx: Fx) -> (r: Fx)
    requires
        mag(cosine@) <= 48 * SCALE as int,
        0 <= ref_idx@ <= 4 * SCALE as int,
    ensures
        r@ == schlick_spec(cosine@, ref_idx@),
        mag(r@) <= 564950500 * SCALE as int,
{
    let denom = SCALE + ref_idx.raw;
    proof {
        lemma_fx_div_fits(SCALE as int - ref_idx@, denom as int, 4 * SCALE as int);
    }
    let r0 = Fx::from_raw(SCALE - ref_idx.raw).div(Fx::from_raw(denom));
    if !(r0.raw >= -SCALE && r0.raw <= SCALE) {
        return Fx::one();
    }
    proof {
        lemma_fx_mul_bound(r0@, r0@, SCALE as int, SCALE as int);
    }
    let rr = r0.mul(r0);
    let e1 = Fx::from_raw(SCALE - cosine.raw);
    proof {
        lemma_fx_mul_bound(e1@, e1@, 49 * SCALE as int, 49 * SCALE as int);
        assert(49 * (SCALE as int) * (49 * (SCALE as int)) / (SCALE as int) == 2401 * (
        SCALE as int)) by (nonlinear_arith);
        lemma_fx_mul_bound(
            fx_mul(e1@, e1@),
            fx_mul(e1@, e1@),
            2401 * SCALE as int,
            2401 * SCALE as int,
        );
        assert(2401 * (SCALE as int) * (2401 * (SCALE as int)) / (SCALE as int) == 5764801 * (
        SCALE as int)) by (nonlinear_arith);
        lemma_fx_mul_bound(
            fx_mul(fx_mul(e1@, e1@), fx_mul(e1@, e1@)),
            e1@,
            5764801 * SCALE as int,
            49 * SCALE as int,
        );
        assert(5764801 * (SCALE as int) * (49 * (SCALE as int)) / (SCALE as int) == 282475249 * (
        SCALE as int)) by (nonlinear_arith);
    }
    let e2 = e1.mul(e1);
    let e4 = e2.mul(e2);
    let e5 = e4.mul(e1);
    proof {
        lemma_fx_mul_bound(SCALE as int - rr@, e5@, 2 * SCALE as int, 282475249 * SCALE as int);
        assert(2 * (SCALE as int) * (282475249 * (SCALE as int)) / (SCALE as int) == 564950498 * (
        SCALE as int)) by (nonlinear_arith);
    }
    let tail = Fx::from_raw(SCALE - rr.raw).mul(e5);
    Fx::from_raw(rr.raw + tail.raw)
}

} // verus!
