//! Spheres, still and moving: quadratic ray intersection.

use vstd::prelude::*;
use crate::fixed::{
    Fx, SCALE, fx, fx_mul, fx_div, mag, rtz, sqrt_floor, lemma_fx_mul_bound,
    lemma_fx_div_fits, rtz_div_i128, isqrt_u128,
};
use crate::vec3::{Point3, Vec3, dot, in_world, WORLD_MAX, DOT_ARG_MAX};
use crate::ray::{Ray, ray_wf, at_x, at_y, at_z};
use crate::aabb::{Aabb, aabb_wf, aabb_ordered};
use crate::hittable::{HitRecord, face_normal, face_normal_spec, front_face_spec, rec_wf};
use crate::trig::{PI_FX, TWO_PI_FX, atan2_spec, acos_spec, atan2_fx, acos_fx};

verus! {

/// A sphere with a material handle into the scene's arena.
#[derive(Clone, Copy, PartialEq, Eq, Structural, Debug)]
pub struct Sphere {
    pub center: Point3,
    pub radius: Fx,
    pub mat: usize,
}

/// A sphere whose center moves linearly from `center0` at `time0` to
/// `center1` at `time1`.
#[derive(Clone, Copy, PartialEq, Eq, Structural, Debug)]
pub struct MovingSphere {
    pub center0: Point3,
    pub center1: Point3,
    pub time0: Fx,
    pub time1: Fx,
    pub radius: Fx,
    pub mat: usize,
}

/// Geometry within world bounds and a nonzero radius.
pub open spec fn sphere_wf(s: Sphere) -> bool {
    &&& in_world(s.center)
    &&& mag(s.radius@) <= WORLD_MAX as int
    &&& s.radius@ != 0
}

/// Both keyframes in world bounds, distinct keyframe times, nonzero radius.
pub open spec fn moving_sphere_wf(s: MovingSphere) -> bool {
    &&& in_world(s.center0)
    &&& in_world(s.center1)
    &&& mag(s.time0@) <= WORLD_MAX as int
    &&& mag(s.time1@) <= WORLD_MAX as int
    &&& s.time0@ != s.time1@
    &&& mag(s.radius@) <= WORLD_MAX as int
    &&& s.radius@ != 0
}

/// Raw discriminant (at squared scale) of the intersection quadratic.
pub open spec fn quad_disc(a: int, hb: int, c: int) -> int {
    hb * hb - a * c
}

/// The root selected by the intersection rule: the smaller root if it lies
/// in `(t0, t1]`, else the larger root if it does, else none.
pub open spec fn quad_root(a: int, hb: int, sq: int, t0: int, t1: int) -> Option<int>
    recommends
        a > 0,
{
    let r1 = rtz((-hb - sq) * (SCALE as int), a);
    if t0 < r1 <= t1 {
        Some(r1)
    } else {
        let r2 = rtz((-hb + sq) * (SCALE as int), a);
        if t0 < r2 <= t1 {
            Some(r2)
        } else {
            None
        }
    }
}

/// The intersection parameter of a ray with the sphere of the given center
/// and radius, if any: the quadratic in `t` built from the fixed-point dot
/// products, solved with the integer square root of its discriminant.
pub open spec fn sphere_hit_t(center: Vec3, radius: int, r: Ray, t0: int, t1: int) -> Option<
    int,
> {
    let ocx = r.origin.x@ - center.x@;
    let ocy = r.origin.y@ - center.y@;
    let ocz = r.origin.z@ - center.z@;
    let a = fx_mul(r.dir.x@, r.dir.x@) + fx_mul(r.dir.y@, r.dir.y@) + fx_mul(r.dir.z@, r.dir.z@);
    let hb = fx_mul(ocx, r.dir.x@) + fx_mul(ocy, r.dir.y@) + fx_mul(ocz, r.dir.z@);
    let c = fx_mul(ocx, ocx) + fx_mul(ocy, ocy) + fx_mul(ocz, ocz) - fx_mul(radius, radius);
    let d2 = quad_disc(a, hb, c);
    if a <= 0 || d2 < 0 {
        None
    } else {
        quad_root(a, hb, sqrt_floor(d2), t0, t1)
    }
}

/// Surface coordinates of an outward unit normal: longitude and latitude
/// mapped to `[0, 1]`, via the fixed-point arc tangent.
pub open spec fn sphere_uv_spec(ow: Vec3) -> (int, int) {
    let phi = atan2_spec(-ow.z@, ow.x@) + PI_FX as int;
    let yc = if -ow.y@ > SCALE as int {
        SCALE as int
    } else if -ow.y@ < -(SCALE as int) {
        -(SCALE as int)
    } else {
        -ow.y@
    };
    (fx_div(phi, TWO_PI_FX as int), fx_div(acos_spec(yc), PI_FX as int))
}

/// The record produced for a hit at parameter `t` of the sphere of the
/// given center and radius, or none if quantization pushed the point or
/// normal out of world range.  `with_uv` selects whether spherical surface
/// coordinates are filled in.
pub open spec fn sphere_make_rec(
    center: Vec3,
    radius: int,
    mat: usize,
    with_uv: bool,
    r: Ray,
    t: int,
) -> Option<HitRecord> {
    let p = Vec3 { x: fx(at_x(r, t)), y: fx(at_y(r, t)), z: fx(at_z(r, t)) };
    let ow = Vec3 {
        x: fx(fx_div(p.x@ - center.x@, radius)),
        y: fx(fx_div(p.y@ - center.y@, radius)),
        z: fx(fx_div(p.z@ - center.z@, radius)),
    };
    if in_world(p) && in_world(ow) {
        let uv = if with_uv {
            sphere_uv_spec(ow)
        } else {
            (0int, 0int)
        };
        Some(
            HitRecord {
                point: p,
                normal: face_normal_spec(r, ow),
                t: fx(t),
                u: fx(uv.0),
                v: fx(uv.1),
                front_face: front_face_spec(r, ow),
                mat,
            },
        )
    } else {
        None
    }
}

/// Intersection result against the sphere of the given center and radius.
pub open spec fn sphere_hit_at(
    center: Vec3,
    radius: int,
    mat: usize,
    with_uv: bool,
    r: Ray,
    t0: int,
    t1: int,
) -> Option<HitRecord> {
    match sphere_hit_t(center, radius, r, t0, t1) {
        Some(t) => sphere_make_rec(center, radius, mat, with_uv, r, t),
        None => None,
    }
}

/// Full intersection result of a still sphere.
pub open spec fn sphere_hit_spec(s: Sphere, r: Ray, t0: int, t1: int) -> Option<HitRecord> {
    sphere_hit_at(s.center, s.radius@, s.mat, true, r, t0, t1)
}

/// The interpolated center of a moving sphere at `frac` of the way from
/// keyframe 0 to keyframe 1.
pub open spec fn lerp_center(c0: Vec3, c1: Vec3, frac: int) -> Vec3 {
    Vec3 {
        x: fx(c0.x@ + fx_mul(c1.x@ - c0.x@, frac)),
        y: fx(c0.y@ + fx_mul(c1.y@ - c0.y@, frac)),
        z: fx(c0.z@ + fx_mul(c1.z@ - c0.z@, frac)),
    }
}

/// Full intersection result of a moving sphere: the same quadratic against
/// the center interpolated at the ray's time.  Surface coordinates are not
/// filled in.  If the normalized time or the interpolated center leaves the
/// representable world, the test reports a miss.
pub open spec fn moving_sphere_hit_spec(s: MovingSphere, r: Ray, t0: int, t1: int) -> Option<
    HitRecord,
> {
    let frac = fx_div(r.time@ - s.time0@, s.time1@ - s.time0@);
    let ct = lerp_center(s.center0, s.center1, frac);
    if mag(frac) <= DOT_ARG_MAX as int && in_world(ct) {
        sphere_hit_at(ct, s.radius@, s.mat, false, r, t0, t1)
    } else {
        None
    }
}

/// The box of a still sphere: the center offset by the radius magnitude
/// on every axis.
pub open spec fn sphere_bbox_spec(s: Sphere) -> Aabb {
    Aabb {
        min: Vec3 {
            x: fx(s.center.x@ - mag(s.radius@)),
            y: fx(s.center.y@ - mag(s.radius@)),
            z: fx(s.center.z@ - mag(s.radius@)),
        },
        max: Vec3 {
            x: fx(s.center.x@ + mag(s.radius@)),
            y: fx(s.center.y@ + mag(s.radius@)),
            z: fx(s.center.z@ + mag(s.radius@)),
        },
    }
}

/// The box around the moving sphere's center at normalized time `frac`.
pub open spec fn moving_ball_box(s: MovingSphere, frac: int) -> Aabb {
    let ct = lerp_center(s.center0, s.center1, frac);
    Aabb {
        min: Vec3 {
            x: fx(ct.x@ - mag(s.radius@)),
            y: fx(ct.y@ - mag(s.radius@)),
            z: fx(ct.z@ - mag(s.radius@)),
        },
        max: Vec3 {
            x: fx(ct.x@ + mag(s.radius@)),
            y: fx(ct.y@ + mag(s.radius@)),
            z: fx(ct.z@ + mag(s.radius@)),
        },
    }
}

/// The center of a moving sphere at `time`, or none when the normalized
/// time or the interpolated point leaves the representable world.
pub open spec fn center_at_spec(s: MovingSphere, time: int) -> Option<Vec3> {
    let frac = fx_div(time - s.time0@, s.time1@ - s.time0@);
    let ct = lerp_center(s.center0, s.center1, frac);
    if mag(frac) <= DOT_ARG_MAX as int && in_world(ct) {
        Some(ct)
    } else {
        None
    }
}

/// The box of a moving sphere over the shutter interval: the union of the
/// boxes at the two endpoints, or none when either endpoint's center is
/// unrepresentable.
pub open spec fn moving_sphere_bbox_spec(s: MovingSphere, time0: int, time1: int) -> Option<
    Aabb,
> {
    let f0 = fx_div(time0 - s.time0@, s.time1@ - s.time0@);
    let f1 = fx_div(time1 - s.time0@, s.time1@ - s.time0@);
    if center_at_spec(s, time0) is Some && center_at_spec(s, time1) is Some {
        let b0 = moving_ball_box(s, f0);
        let b1 = moving_ball_box(s, f1);
        Some(
            Aabb {
                min: Vec3 {
                    x: fx(crate::aabb::imin(b0.min.x@, b1.min.x@)),
                    y: fx(crate::aabb::imin(b0.min.y@, b1.min.y@)),
                    z: fx(crate::aabb::imin(b0.min.z@, b1.min.z@)),
                },
                max: Vec3 {
                    x: fx(crate::aabb::imax(b0.max.x@, b1.max.x@)),
                    y: fx(crate::aabb::imax(b0.max.y@, b1.max.y@)),
                    z: fx(crate::aabb::imax(b0.max.z@, b1.max.z@)),
                },
            },
        )
    } else {
        None
    }
}

/// Exec surface coordinates for an outward normal.
pub fn sphere_uv(ow: &Vec3) -> (res: (Fx, Fx))
    requires
        in_world(*ow),
    ensures
        res.0@ == sphere_uv_spec(*ow).0,
        res.1@ == sphere_uv_spec(*ow).1,
        0 <= res.0@ <= SCALE as int,
        0 <= res.1@ <= SCALE as int,
{
    let phi = atan2_fx(ow.z.neg(), ow.x);
    let phi_shift = Fx::from_raw(phi.raw + PI_FX);
    proof {
        crate::trig::lemma_ratio_unit(phi_shift@, TWO_PI_FX as int);
    }
    let u = phi_shift.div(Fx::from_raw(TWO_PI_FX));
    let ny = ow.y.neg();
    let yc = if ny.raw > SCALE {
        Fx::from_raw(SCALE)
    } else if ny.raw < -SCALE {
        Fx::from_raw(-SCALE)
    } else {
        ny
    };
    let theta = acos_fx(yc);
    proof {
        crate::trig::lemma_acos_range(yc@);
        crate::trig::lemma_ratio_unit(theta@, PI_FX as int);
    }
    let v = theta.div(Fx::from_raw(PI_FX));
    (u, v)
}

/// Shared quadratic intersection against a center and radius.
fn quad_hit(
    center: Point3,
    radius: Fx,
    mat: usize,
    with_uv: bool,
    r: &Ray,
    t_min: Fx,
    t_max: Fx,
) -> (res: Option<HitRecord>)
    requires
        ray_wf(*r),
        in_world(center),
        mag(radius@) <= WORLD_MAX as int,
        radius@ != 0,
        mag(t_min@) <= WORLD_MAX as int,
        mag(t_max@) <= WORLD_MAX as int,
    ensures
        res == sphere_hit_at(center, radius@, mat, with_uv, *r, t_min@, t_max@),
        res matches Some(rec) ==> rec_wf(rec) && rec.mat == mat,
{
    let oc = r.origin.sub(center);
    let a = dot(&r.dir, &r.dir);
    let half_b = dot(&oc, &r.dir);
    proof {
        lemma_fx_mul_bound(radius@, radius@, WORLD_MAX as int, WORLD_MAX as int);
    }
    let rsq = radius.mul(radius);
    let c = dot(&oc, &oc).sub(rsq);
    proof {
        assert((half_b@) * (half_b@) <= 0x3000_0000_0000_0000 * 0x3000_0000_0000_0000)
            by (nonlinear_arith)
            requires
                mag(half_b@) <= 0x3000_0000_0000_0000;
        assert(mag((a@) * (c@)) <= 0x3000_0000_0000_0000 * 0x4000_0000_0000_0000)
            by (nonlinear_arith)
            requires
                mag(a@) <= 0x3000_0000_0000_0000,
                mag(c@) <= 0x4000_0000_0000_0000;
        assert((half_b@) * (half_b@) >= 0) by (nonlinear_arith);
    }
    let d2: i128 = (half_b.raw as i128) * (half_b.raw as i128) - (a.raw as i128) * (c.raw
        as i128);
    if a.raw <= 0 || d2 < 0 {
        return None;
    }
    let sq_u = isqrt_u128(d2 as u128);
    let sq: i128 = sq_u as i128;
    proof {
        assert(sq as int <= 0x1_0000_0000_0000_0000) by (nonlinear_arith)
            requires
                0 <= sq as int,
                (sq as int) * (sq as int) <= 0x1_0000_0000_0000_0000 * 0x1_0000_0000_0000_0000;
        assert((sq_u as int) * (sq_u as int) <= d2 as int);
        assert(d2 as int <= 0x1_0000_0000_0000_0000 * 0x1_0000_0000_0000_0000)
            by (nonlinear_arith)
            requires
                d2 as int <= 0x3000_0000_0000_0000 * 0x3000_0000_0000_0000 + 0x3000_0000_0000_0000
                    * 0x4000_0000_0000_0000;
    }
    let num1: i128 = -(half_b.raw as i128) - sq;
    let q1: i128 = rtz_div_i128(num1 * 65536, a.raw as i128);
    let tmin_w: i128 = t_min.raw as i128;
    let tmax_w: i128 = t_max.raw as i128;
    let root: i128 = if tmin_w < q1 && q1 <= tmax_w {
        q1
    } else {
        let num2: i128 = -(half_b.raw as i128) + sq;
        let q2: i128 = rtz_div_i128(num2 * 65536, a.raw as i128);
        if tmin_w < q2 && q2 <= tmax_w {
            q2
        } else {
            return None;
        }
    };
    let t = Fx::from_raw(root as i64);
    let p = r.at(t);
    proof {
        lemma_fx_mul_bound(r.dir.x@, t@, WORLD_MAX as int, WORLD_MAX as int);
        lemma_fx_mul_bound(r.dir.y@, t@, WORLD_MAX as int, WORLD_MAX as int);
        lemma_fx_mul_bound(r.dir.z@, t@, WORLD_MAX as int, WORLD_MAX as int);
        lemma_fx_div_fits(p.x@ - center.x@, radius@, 0x4000_0000_0000);
        lemma_fx_div_fits(p.y@ - center.y@, radius@, 0x4000_0000_0000);
        lemma_fx_div_fits(p.z@ - center.z@, radius@, 0x4000_0000_0000);
    }
    let ow = Vec3::new(
        p.x.sub(center.x).div(radius),
        p.y.sub(center.y).div(radius),
        p.z.sub(center.z).div(radius),
    );
    if !(p.check_in_world() && ow.check_in_world()) {
        return None;
    }
    let fres = face_normal(r, &ow);
    let uv = if with_uv {
        sphere_uv(&ow)
    } else {
        (Fx::zero(), Fx::zero())
    };
    Some(
        HitRecord {
            point: p,
            normal: fres.1,
            t,
            u: uv.0,
            v: uv.1,
            front_face: fres.0,
            mat,
        },
    )
}

impl Sphere {
    /// Builds a sphere.
    pub fn new(center: Point3, radius: Fx, mat: usize) -> (s: Sphere)
        ensures
            s == (Sphere { center, radius, mat }),
    {
        Sphere { center, radius, mat }
    }

    /// Nearest intersection in `(t_min, t_max]`, with surface coordinates.
    pub fn hit(&self, r: &Ray, t_min: Fx, t_max: Fx) -> (res: Option<HitRecord>)
        requires
            ray_wf(*r),
            sphere_wf(*self),
            mag(t_min@) <= WORLD_MAX as int,
            mag(t_max@) <= WORLD_MAX as int,
        ensures
            res == sphere_hit_spec(*self, *r, t_min@, t_max@),
            res matches Some(rec) ==> rec_wf(rec) && rec.mat == self.mat,
    {
        quad_hit(self.center, self.radius, self.mat, true, r, t_min, t_max)
    }

    /// Box spanning `center - |radius|` to `center + |radius|`, valid at all
    /// times: a still sphere's box does not depend on the shutter interval.
    pub fn bounding_box(&self) -> (bx: Aabb)
        requires
            sphere_wf(*self),
        ensures
            bx == sphere_bbox_spec(*self),
            aabb_wf(bx),
            aabb_ordered(bx),
    {
        let ra = radius_mag(self.radius);
        let rv = Vec3::new(ra, ra, ra);
        Aabb::new(self.center.sub(rv), self.center.add(rv))
    }
}

/// Magnitude of a radius (well-formed radii are far from the extreme value).
fn radius_mag(radius: Fx) -> (r: Fx)
    requires
        mag(radius@) <= WORLD_MAX as int,
    ensures
        r@ == mag(radius@),
{
    radius.abs()
}

impl MovingSphere {
    /// Builds a moving sphere.
    pub fn new(center0: Point3, center1: Point3, time0: Fx, time1: Fx, radius: Fx, mat: usize) -> (
        s: MovingSphere)
        ensures
            s == (MovingSphere { center0, center1, time0, time1, radius, mat }),
    {
        MovingSphere { center0, center1, time0, time1, radius, mat }
    }

    /// The center at time `time`, or none if the normalized time or the
    /// interpolated point leaves the representable world.
    pub fn center_at(&self, time: Fx) -> (res: Option<Point3>)
        requires
            moving_sphere_wf(*self),
            mag(time@) <= WORLD_MAX as int,
        ensures
            res == center_at_spec(*self, time@),
    {
        proof {
            lemma_fx_div_fits(time@ - self.time0@, self.time1@ - self.time0@, 2 * WORLD_MAX as int);
        }
        let frac = time.sub(self.time0).div(self.time1.sub(self.time0));
        if !(frac.raw <= DOT_ARG_MAX && frac.raw >= -DOT_ARG_MAX) {
            return None;
        }
        proof {
            lemma_fx_mul_bound(
                self.center1.x@ - self.center0.x@,
                frac@,
                2 * WORLD_MAX as int,
                DOT_ARG_MAX as int,
            );
            lemma_fx_mul_bound(
                self.center1.y@ - self.center0.y@,
                frac@,
                2 * WORLD_MAX as int,
                DOT_ARG_MAX as int,
            );
            lemma_fx_mul_bound(
                self.center1.z@ - self.center0.z@,
                frac@,
                2 * WORLD_MAX as int,
                DOT_ARG_MAX as int,
            );
        }
        let ct = self.center0.add(self.center1.sub(self.center0).scale(frac));
        if ct.check_in_world() {
            Some(ct)
        } else {
            None
        }
    }

    /// Nearest intersection in `(t_min, t_max]` against the center at the
    /// ray's time.
    pub fn hit(&self, r: &Ray, t_min: Fx, t_max: Fx) -> (res: Option<HitRecord>)
        requires
            ray_wf(*r),
            moving_sphere_wf(*self),
            mag(r.time@) <= WORLD_MAX as int,
            mag(t_min@) <= WORLD_MAX as int,
            mag(t_max@) <= WORLD_MAX as int,
        ensures
            res == moving_sphere_hit_spec(*self, *r, t_min@, t_max@),
            res matches Some(rec) ==> rec_wf(rec) && rec.mat == self.mat,
    {
        match self.center_at(r.time) {
            Some(ct) => quad_hit(ct, self.radius, self.mat, false, r, t_min, t_max),
            None => None,
        }
    }

    /// Box covering the sphere at both shutter endpoints — the union of the
    /// endpoint boxes, which by linearity of the center path covers the
    /// sphere throughout the interval — or none if either interpolated
    /// center leaves the representable world.
    pub fn bounding_box(&self, time0: Fx, time1: Fx) -> (res: Option<Aabb>)
        requires
            moving_sphere_wf(*self),
            mag(time0@) <= WORLD_MAX as int,
            mag(time1@) <= WORLD_MAX as int,
        ensures
            res == moving_sphere_bbox_spec(*self, time0@, time1@),
            res matches Some(bx) ==> aabb_wf(bx) && aabb_ordered(bx) && crate::aabb::aabb_bounded(
                bx,
            ),
    {
        let c0 = self.center_at(time0);
        let c1 = self.center_at(time1);
        match (c0, c1) {
            (Some(p0), Some(p1)) => {
                let ra = radius_mag(self.radius);
                let rv = Vec3::new(ra, ra, ra);
                let b0 = Aabb::new(p0.sub(rv), p0.add(rv));
                let b1 = Aabb::new(p1.sub(rv), p1.add(rv));
                Some(Aabb::surrounding_box(&b0, &b1))
            },
            _ => None,
        }
    }
}

} // verus!
