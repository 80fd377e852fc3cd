//! Intersection records and the face-orientation rule shared by all
//! surfaces.

use vstd::prelude::*;
use crate::fixed::{Fx, SCALE, fx, fx_mul, mag, lemma_fx_mul_bound};
use crate::vec3::{Point3, Vec3, dot, dot_spec, in_world, WORLD_MAX};
use crate::ray::{Ray, ray_wf};
use crate::aabb::{Aabb, aabb_wf, aabb_ordered, aabb_bounded, aabb_hit_spec};
use crate::sphere::{Sphere, MovingSphere, sphere_wf, moving_sphere_wf, sphere_hit_spec, moving_sphere_hit_spec, sphere_bbox_spec, moving_sphere_bbox_spec};
use crate::aarect::{XYRect, ZXRect, YZRect, xy_rect_wf, zx_rect_wf, yz_rect_wf, xy_rect_hit_spec, zx_rect_hit_spec, yz_rect_hit_spec, EPS_PAD};
use crate::cube::{Cube, cube_wf, cube_hit_spec};
use crate::constant_medium::{ConstantMedium, medium_wf, medium_hit_with};
use crate::bvh::{BvhNode};

verus! {

/// Result of a successful ray-surface intersection.  `mat` is the handle of
/// the responsible material in the scene's material arena; many surfaces may
/// share one handle, and materials are immutable for the scene's lifetime.
#[derive(Clone, Copy, PartialEq, Eq, Structural, Debug)]
pub struct HitRecord {
    pub point: Point3,
    pub normal: Vec3,
    pub t: Fx,
    pub u: Fx,
    pub v: Fx,
    pub front_face: bool,
    pub mat: usize,
}

/// The record's geometry lies within world bounds, so it can seed further
/// rays.
pub open spec fn rec_wf(rec: HitRecord) -> bool {
    &&& in_world(rec.point)
    &&& in_world(rec.normal)
    &&& mag(rec.t@) <= WORLD_MAX as int
    &&& mag(rec.u@) <= SCALE as int
    &&& mag(rec.v@) <= SCALE as int
}

/// Whether the geometric outward normal already faces against the ray.
pub open spec fn front_face_spec(r: Ray, outward: Vec3) -> bool {
    dot_spec(r.dir, outward) < 0
}

/// The stored normal: the outward normal flipped, if needed, to face against
/// the incoming ray.
pub open spec fn face_normal_spec(r: Ray, outward: Vec3) -> Vec3 {
    if front_face_spec(r, outward) {
        outward
    } else {
        Vec3 {
            x: Fx { raw: -outward.x@ as i64 },
            y: Fx { raw: -outward.y@ as i64 },
            z: Fx { raw: -outward.z@ as i64 },
        }
    }
}

/// Computes the face flag and oriented normal for an outward normal.
pub fn face_normal(r: &Ray, outward: &Vec3) -> (res: (bool, Vec3))
    requires
        ray_wf(*r),
        in_world(*outward),
    ensures
        res.0 == front_face_spec(*r, *outward),
        res.1 == face_normal_spec(*r, *outward),
        in_world(res.1),
{
    let d = dot(&r.dir, outward);
    if d.raw < 0 {
        (true, *outward)
    } else {
        (false, outward.neg())
    }
}

/// A geometric transform that shifts a wrapped surface by `offset`.
pub struct Translate {
    pub offset: Vec3,
    pub ptr: Box<Surface>,
}

/// A geometric transform that rotates a wrapped surface about the `y` axis.
/// `sin` and `cos` are the precomputed sine and cosine of the angle; `bbox`
/// is the conservative box computed at construction by rotating the corners
/// of the wrapped surface's box (none if the wrapped surface has no box or
/// the rotated corners leave the representable range).
pub struct RotateY {
    pub sin: Fx,
    pub cos: Fx,
    pub bbox: Option<Aabb>,
    pub ptr: Box<Surface>,
}

/// The closed set of surfaces: primitives, the box compound, the volumetric
/// medium, the two geometric transforms and the hierarchy node.
pub enum Surface {
    Sphere(Sphere),
    MovingSphere(MovingSphere),
    XYRect(XYRect),
    ZXRect(ZXRect),
    YZRect(YZRect),
    Cube(Cube),
    Medium(ConstantMedium),
    Translate(Translate),
    RotateY(RotateY),
    Bvh(BvhNode),
}

/// Well-formedness of a surface tree: every node's data is within range.
pub open spec fn surf_wf(s: Surface) -> bool
    decreases s,
{
    match s {
        Surface::Sphere(sp) => sphere_wf(sp),
        Surface::MovingSphere(ms) => moving_sphere_wf(ms),
        Surface::XYRect(rc) => xy_rect_wf(rc),
        Surface::ZXRect(rc) => zx_rect_wf(rc),
        Surface::YZRect(rc) => yz_rect_wf(rc),
        Surface::Cube(c) => cube_wf(c),
        Surface::Medium(m) => medium_wf(m) && surf_wf(*m.boundary),
        Surface::Translate(tr) => in_world(tr.offset) && surf_wf(*tr.ptr),
        Surface::RotateY(ro) => mag(ro.sin@) <= SCALE as int && mag(ro.cos@) <= SCALE as int && (
        ro.bbox matches Some(b) ==> aabb_wf(b) && aabb_ordered(b) && aabb_bounded(b)) && surf_wf(
            *ro.ptr,
        ),
        Surface::Bvh(n) => aabb_wf(n.abox) && aabb_ordered(n.abox) && aabb_bounded(n.abox)
            && surf_wf(*n.left) && surf_wf(*n.right),
    }
}

/// Whether the tree contains a volumetric medium, whose scattering depth is
/// drawn by chance: only a medium-free tree has a deterministic
/// intersection function.
pub open spec fn has_medium(s: Surface) -> bool
    decreases s,
{
    match s {
        Surface::Medium(_) => true,
        Surface::Translate(tr) => has_medium(*tr.ptr),
        Surface::RotateY(ro) => has_medium(*ro.ptr),
        Surface::Bvh(n) => has_medium(*n.left) || has_medium(*n.right),
        _ => false,
    }
}

/// Ray-into-object-space rotation about `y`: the `x` component.
pub open spec fn rot_fwd_x(c: int, s: int, x: int, z: int) -> int {
    fx_mul(c, x) - fx_mul(s, z)
}

/// Ray-into-object-space rotation about `y`: the `z` component.
pub open spec fn rot_fwd_z(c: int, s: int, x: int, z: int) -> int {
    fx_mul(s, x) + fx_mul(c, z)
}

/// Object-to-world rotation about `y`: the `x` component.
pub open spec fn rot_back_x(c: int, s: int, x: int, z: int) -> int {
    fx_mul(c, x) + fx_mul(s, z)
}

/// Object-to-world rotation about `y`: the `z` component.
pub open spec fn rot_back_z(c: int, s: int, x: int, z: int) -> int {
    -fx_mul(s, x) + fx_mul(c, z)
}

/// The deterministic intersection of a ray with a surface tree, exact for
/// every tree without a volumetric medium (a medium's scattering point is
/// drawn by chance, so its branch here reports a miss; see
/// `medium_hit_with` for the medium's own deterministic core).  The two
/// geometric transforms map the point (and, for the rotation, the normal)
/// but keep the inner record's face flag: the flag records how the
/// geometric outward normal met the ray, which a shift or rotation does
/// not change.
pub open spec fn surf_hit_det(s: Surface, r: Ray, t0: int, t1: int) -> Option<HitRecord>
    decreases s,
{
    match s {
        Surface::Sphere(sp) => sphere_hit_spec(sp, r, t0, t1),
        Surface::MovingSphere(ms) => moving_sphere_hit_spec(ms, r, t0, t1),
        Surface::XYRect(rc) => xy_rect_hit_spec(rc, r, t0, t1),
        Surface::ZXRect(rc) => zx_rect_hit_spec(rc, r, t0, t1),
        Surface::YZRect(rc) => yz_rect_hit_spec(rc, r, t0, t1),
        Surface::Cube(c) => cube_hit_spec(c, r, t0, t1),
        Surface::Medium(_) => None,
        Surface::Translate(tr) => {
            let o2 = Vec3 {
                x: fx(r.origin.x@ - tr.offset.x@),
                y: fx(r.origin.y@ - tr.offset.y@),
                z: fx(r.origin.z@ - tr.offset.z@),
            };
            if !in_world(o2) {
                None
            } else {
                let r2 = Ray { origin: o2, dir: r.dir, time: r.time };
                match surf_hit_det(*tr.ptr, r2, t0, t1) {
                    None => None,
                    Some(rec0) => {
                        let p = Vec3 {
                            x: fx(rec0.point.x@ + tr.offset.x@),
                            y: fx(rec0.point.y@ + tr.offset.y@),
                            z: fx(rec0.point.z@ + tr.offset.z@),
                        };
                        if in_world(p) {
                            Some(HitRecord { point: p, ..rec0 })
                        } else {
                            None
                        }
                    },
                }
            }
        },
        Surface::RotateY(ro) => {
            let c = ro.cos@;
            let sn = ro.sin@;
            let o2 = Vec3 {
                x: fx(rot_fwd_x(c, sn, r.origin.x@, r.origin.z@)),
                y: r.origin.y,
                z: fx(rot_fwd_z(c, sn, r.origin.x@, r.origin.z@)),
            };
            let d2 = Vec3 {
                x: fx(rot_fwd_x(c, sn, r.dir.x@, r.dir.z@)),
                y: r.dir.y,
                z: fx(rot_fwd_z(c, sn, r.dir.x@, r.dir.z@)),
            };
            if !(in_world(o2) && in_world(d2)) {
                None
            } else {
                let r2 = Ray { origin: o2, dir: d2, time: r.time };
                match surf_hit_det(*ro.ptr, r2, t0, t1) {
                    None => None,
                    Some(rec0) => {
                        let p = Vec3 {
                            x: fx(rot_back_x(c, sn, rec0.point.x@, rec0.point.z@)),
                            y: rec0.point.y,
                            z: fx(rot_back_z(c, sn, rec0.point.x@, rec0.point.z@)),
                        };
                        let n2 = Vec3 {
                            x: fx(rot_back_x(c, sn, rec0.normal.x@, rec0.normal.z@)),
                            y: rec0.normal.y,
                            z: fx(rot_back_z(c, sn, rec0.normal.x@, rec0.normal.z@)),
                        };
                        if in_world(p) && in_world(n2) {
                            Some(HitRecord { point: p, normal: n2, ..rec0 })
                        } else {
                            None
                        }
                    },
                }
            }
        },
        Surface::Bvh(n) => {
            if !aabb_hit_spec(n.abox, r, t0, t1) {
                None
            } else {
                match surf_hit_det(*n.left, r, t0, t1) {
                    Some(lr) => match surf_hit_det(*n.right, r, t0, lr.t@) {
                        Some(rr) => Some(rr),
                        None => Some(lr),
                    },
                    None => surf_hit_det(*n.right, r, t0, t1),
                }
            }
        },
    }
}

/// The extrema box of a box's corners rotated about `y` (the four
/// corner pairs in the rotated `x`/`z` plane; `y` passes through), or none
/// when a corner leaves the representable range.
pub open spec fn rotate_box_spec(c: int, s: int, b: Aabb) -> Option<Aabb> {
    let ax = rot_back_x(c, s, b.min.x@, b.min.z@);
    let az = rot_back_z(c, s, b.min.x@, b.min.z@);
    let bx2 = rot_back_x(c, s, b.max.x@, b.min.z@);
    let bz2 = rot_back_z(c, s, b.max.x@, b.min.z@);
    let cx2 = rot_back_x(c, s, b.min.x@, b.max.z@);
    let cz2 = rot_back_z(c, s, b.min.x@, b.max.z@);
    let dx = rot_back_x(c, s, b.max.x@, b.max.z@);
    let dz = rot_back_z(c, s, b.max.x@, b.max.z@);
    let out = Aabb {
        min: Vec3 {
            x: fx(crate::aabb::imin(crate::aabb::imin(ax, bx2), crate::aabb::imin(cx2, dx))),
            y: b.min.y,
            z: fx(crate::aabb::imin(crate::aabb::imin(az, bz2), crate::aabb::imin(cz2, dz))),
        },
        max: Vec3 {
            x: fx(crate::aabb::imax(crate::aabb::imax(ax, bx2), crate::aabb::imax(cx2, dx))),
            y: b.max.y,
            z: fx(crate::aabb::imax(crate::aabb::imax(az, bz2), crate::aabb::imax(cz2, dz))),
        },
    };
    if aabb_bounded(out) {
        Some(out)
    } else {
        None
    }
}

/// The box a surface tree reports over a shutter interval: exact mirrors
/// of each variant's construction — the corner boxes of the primitives,
/// the shifted inner box of a translation (none when it leaves range), the
/// rotation's cached box, and the hierarchy node's cached box.
pub open spec fn surf_bbox_spec(s: Surface, t0: int, t1: int) -> Option<Aabb>
    decreases s,
{
    match s {
        Surface::Sphere(sp) => Some(sphere_bbox_spec(sp)),
        Surface::MovingSphere(ms) => moving_sphere_bbox_spec(ms, t0, t1),
        Surface::XYRect(rc) => Some(
            Aabb {
                min: Vec3 { x: rc.x0, y: rc.y0, z: fx(rc.k@ - EPS_PAD as int) },
                max: Vec3 { x: rc.x1, y: rc.y1, z: fx(rc.k@ + EPS_PAD as int) },
            },
        ),
        Surface::ZXRect(rc) => Some(
            Aabb {
                min: Vec3 { x: rc.x0, y: fx(rc.k@ - EPS_PAD as int), z: rc.z0 },
                max: Vec3 { x: rc.x1, y: fx(rc.k@ + EPS_PAD as int), z: rc.z1 },
            },
        ),
        Surface::YZRect(rc) => Some(
            Aabb {
                min: Vec3 { x: fx(rc.k@ - EPS_PAD as int), y: rc.y0, z: rc.z0 },
                max: Vec3 { x: fx(rc.k@ + EPS_PAD as int), y: rc.y1, z: rc.z1 },
            },
        ),
        Surface::Cube(c) => Some(Aabb { min: c.cube_min, max: c.cube_max }),
        Surface::Medium(m) => surf_bbox_spec(*m.boundary, t0, t1),
        Surface::Translate(tr) => match surf_bbox_spec(*tr.ptr, t0, t1) {
            None => None,
            Some(b) => {
                let sh = Aabb {
                    min: Vec3 {
                        x: fx(b.min.x@ + tr.offset.x@),
                        y: fx(b.min.y@ + tr.offset.y@),
                        z: fx(b.min.z@ + tr.offset.z@),
                    },
                    max: Vec3 {
                        x: fx(b.max.x@ + tr.offset.x@),
                        y: fx(b.max.y@ + tr.offset.y@),
                        z: fx(b.max.z@ + tr.offset.z@),
                    },
                };
                if aabb_bounded(sh) {
                    Some(sh)
                } else {
                    None
                }
            },
        },
        Surface::RotateY(ro) => ro.bbox,
        Surface::Bvh(n) => Some(n.abox),
    }
}

impl Surface {
    /// Nearest intersection in `(t_min, t_max]`.  For trees without a
    /// volumetric medium the result is the deterministic intersection
    /// function; a medium additionally draws its free path from `rng`,
    /// within the sampler's stated range.  (A medium nested under a
    /// transform or a hierarchy node is promised only a well-formed
    /// record: the admissible-answer relation through wrappers exceeded
    /// the solver's limits and is not stated.)
    pub fn hit(
        &self,
        r: &Ray,
        t_min: Fx,
        t_max: Fx,
        rng: &mut rand::rngs::ThreadRng,
    ) -> (res: Option<HitRecord>)
        requires
            ray_wf(*r),
            surf_wf(*self),
            mag(t_min@) <= WORLD_MAX as int,
            mag(t_max@) <= WORLD_MAX as int,
        ensures
            !has_medium(*self) ==> res == surf_hit_det(*self, *r, t_min@, t_max@),
            self matches Surface::Medium(m) ==> (!has_medium(*m.boundary) ==> exists|hd: int|
                0 <= hd <= 33 * (WORLD_MAX as int) && res == medium_hit_with(
                    *m,
                    *r,
                    t_min@,
                    t_max@,
                    hd,
                )),
            res matches Some(rec) ==> rec_wf(rec),
        decreases *self,
    {
        match self {
            Surface::Sphere(sp) => sp.hit(r, t_min, t_max),
            Surface::MovingSphere(ms) => ms.hit(r, t_min, t_max),
            Surface::XYRect(rc) => rc.hit(r, t_min, t_max),
            Surface::ZXRect(rc) => rc.hit(r, t_min, t_max),
            Surface::YZRect(rc) => rc.hit(r, t_min, t_max),
            Surface::Cube(c) => c.hit(r, t_min, t_max),
            Surface::Medium(m) => medium_hit_exec(m, r, t_min, t_max, rng),
            Surface::Translate(tr) => {
                let o2 = r.origin.sub(tr.offset);
                if !o2.check_in_world() {
                    return None;
                }
                let r2 = Ray::new(o2, r.dir, r.time);
                match tr.ptr.hit(&r2, t_min, t_max, rng) {
                    None => None,
                    Some(rec0) => {
                        let p = rec0.point.add(tr.offset);
                        if !p.check_in_world() {
                            return None;
                        }
                        Some(HitRecord { point: p, ..rec0 })
                    },
                }
            },
            Surface::RotateY(ro) => {
                proof {
                    rot_mul_bounds(ro.cos@, ro.sin@, r.origin.x@, r.origin.z@);
                    rot_mul_bounds(ro.cos@, ro.sin@, r.dir.x@, r.dir.z@);
                }
                let o2 = Vec3::new(
                    ro.cos.mul(r.origin.x).sub(ro.sin.mul(r.origin.z)),
                    r.origin.y,
                    ro.sin.mul(r.origin.x).add(ro.cos.mul(r.origin.z)),
                );
                let d2 = Vec3::new(
                    ro.cos.mul(r.dir.x).sub(ro.sin.mul(r.dir.z)),
                    r.dir.y,
                    ro.sin.mul(r.dir.x).add(ro.cos.mul(r.dir.z)),
                );
                if !(o2.check_in_world() && d2.check_in_world()) {
                    return None;
                }
                let r2 = Ray::new(o2, d2, r.time);
                match ro.ptr.hit(&r2, t_min, t_max, rng) {
                    None => None,
                    Some(rec0) => {
                        proof {
                            rot_mul_bounds(ro.cos@, ro.sin@, rec0.point.x@, rec0.point.z@);
                            rot_mul_bounds(ro.cos@, ro.sin@, rec0.normal.x@, rec0.normal.z@);
                        }
                        let p = Vec3::new(
                            ro.cos.mul(rec0.point.x).add(ro.sin.mul(rec0.point.z)),
                            rec0.point.y,
                            ro.sin.mul(rec0.point.x).neg().add(ro.cos.mul(rec0.point.z)),
                        );
                        let n2 = Vec3::new(
                            ro.cos.mul(rec0.normal.x).add(ro.sin.mul(rec0.normal.z)),
                            rec0.normal.y,
                            ro.sin.mul(rec0.normal.x).neg().add(ro.cos.mul(rec0.normal.z)),
                        );
                        if !(p.check_in_world() && n2.check_in_world()) {
                            return None;
                        }
                        Some(HitRecord { point: p, normal: n2, ..rec0 })
                    },
                }
            },
            Surface::Bvh(n) => {
                if !n.abox.hit(r, t_min, t_max) {
                    return None;
                }
                match n.left.hit(r, t_min, t_max, rng) {
                    Some(lr) => match n.right.hit(r, t_min, lr.t, rng) {
                        Some(rr) => Some(rr),
                        None => Some(lr),
                    },
                    None => n.right.hit(r, t_min, t_max, rng),
                }
            },
        }
    }

    /// A box covering the surface over the shutter interval, or none where
    /// the surface has no representable box.
    pub fn bounding_box(&self, time0: Fx, time1: Fx) -> (res: Option<Aabb>)
        requires
            surf_wf(*self),
            mag(time0@) <= WORLD_MAX as int,
            mag(time1@) <= WORLD_MAX as int,
        ensures
            res == surf_bbox_spec(*self, time0@, time1@),
            res matches Some(bx) ==> aabb_wf(bx) && aabb_ordered(bx) && aabb_bounded(bx),
        decreases *self,
    {
        match self {
            Surface::Sphere(sp) => Some(sp.bounding_box()),
            Surface::MovingSphere(ms) => ms.bounding_box(time0, time1),
            Surface::XYRect(rc) => Some(rc.bounding_box()),
            Surface::ZXRect(rc) => Some(rc.bounding_box()),
            Surface::YZRect(rc) => Some(rc.bounding_box()),
            Surface::Cube(c) => Some(c.bounding_box()),
            Surface::Medium(m) => m.boundary.bounding_box(time0, time1),
            Surface::Translate(tr) => match tr.ptr.bounding_box(time0, time1) {
                None => None,
                Some(b) => {
                    let shifted = Aabb::new(b.min.add(tr.offset), b.max.add(tr.offset));
                    if shifted.check_bounded() {
                        Some(shifted)
                    } else {
                        None
                    }
                },
            },
            Surface::RotateY(ro) => ro.bbox,
            Surface::Bvh(n) => Some(n.abox),
        }
    }
}

impl HitRecord {
    /// Stores the face flag and the oriented normal for an outward normal,
    /// leaving the other fields unchanged.
    pub fn set_face_normal(&mut self, r: &Ray, outward: &Vec3)
        requires
            ray_wf(*r),
            in_world(*outward),
        ensures
            final(self).front_face == front_face_spec(*r, *outward),
            final(self).normal == face_normal_spec(*r, *outward),
            in_world(final(self).normal),
            final(self).point == old(self).point,
            final(self).t == old(self).t,
            final(self).u == old(self).u,
            final(self).v == old(self).v,
            final(self).mat == old(self).mat,
    {
        let fres = face_normal(r, outward);
        self.front_face = fres.0;
        self.normal = fres.1;
    }
}

impl Translate {
    /// Wraps a surface with an additive offset.
    pub fn new(offset: Vec3, ptr: Box<Surface>) -> (t: Translate)
        ensures
            t.offset == offset,
            t.ptr == ptr,
    {
        Translate { offset, ptr }
    }
}

impl RotateY {
    /// Wraps a surface with a rotation about `y`, given the sine and
    /// cosine of the angle.  The cached box rotates the corners of the
    /// wrapped surface's box and takes componentwise extrema; it is absent
    /// if the wrapped surface has no box or the extrema leave range.
    pub fn new(sin: Fx, cos: Fx, ptr: Box<Surface>, time0: Fx, time1: Fx) -> (ro: RotateY)
        requires
            mag(sin@) <= SCALE as int,
            mag(cos@) <= SCALE as int,
            surf_wf(*ptr),
            mag(time0@) <= WORLD_MAX as int,
            mag(time1@) <= WORLD_MAX as int,
        ensures
            ro.sin == sin,
            ro.cos == cos,
            ro.ptr == ptr,
            ro.bbox == match surf_bbox_spec(*ptr, time0@, time1@) {
                None => None::<Aabb>,
                Some(b) => rotate_box_spec(cos@, sin@, b),
            },
            ro.bbox matches Some(b) ==> aabb_wf(b) && aabb_ordered(b) && aabb_bounded(b),
    {
        let bbox = match ptr.bounding_box(time0, time1) {
            None => None,
            Some(b) => rotate_box(sin, cos, &b),
        };
        RotateY { sin, cos, bbox, ptr }
    }
}

/// One corner of the inner box mapped by the object-to-world rotation.
fn rot_corner(cos: Fx, sin: Fx, x: Fx, z: Fx) -> (p: (Fx, Fx))
    requires
        mag(sin@) <= SCALE as int,
        mag(cos@) <= SCALE as int,
        mag(x@) <= crate::aabb::BOX_MAX as int,
        mag(z@) <= crate::aabb::BOX_MAX as int,
    ensures
        p.0@ == rot_back_x(cos@, sin@, x@, z@),
        p.1@ == rot_back_z(cos@, sin@, x@, z@),
{
    proof {
        lemma_fx_mul_bound(cos@, x@, SCALE as int, crate::aabb::BOX_MAX as int);
        lemma_fx_mul_bound(sin@, z@, SCALE as int, crate::aabb::BOX_MAX as int);
        lemma_fx_mul_bound(sin@, x@, SCALE as int, crate::aabb::BOX_MAX as int);
        lemma_fx_mul_bound(cos@, z@, SCALE as int, crate::aabb::BOX_MAX as int);
        assert((SCALE as int) * (crate::aabb::BOX_MAX as int) / (SCALE as int)
            == crate::aabb::BOX_MAX as int);
    }
    (cos.mul(x).add(sin.mul(z)), sin.mul(x).neg().add(cos.mul(z)))
}

/// The componentwise extrema of a box's corners rotated about `y`, or
/// none if they leave the representable range.
fn rotate_box(sin: Fx, cos: Fx, b: &Aabb) -> (res: Option<Aabb>)
    requires
        mag(sin@) <= SCALE as int,
        mag(cos@) <= SCALE as int,
        aabb_wf(*b),
        aabb_ordered(*b),
        aabb_bounded(*b),
    ensures
        res == rotate_box_spec(cos@, sin@, *b),
        res matches Some(bx) ==> aabb_wf(bx) && aabb_ordered(bx) && aabb_bounded(bx),
{
    let pa = rot_corner(cos, sin, b.min.x, b.min.z);
    let pb = rot_corner(cos, sin, b.max.x, b.min.z);
    let pc = rot_corner(cos, sin, b.min.x, b.max.z);
    let pd = rot_corner(cos, sin, b.max.x, b.max.z);
    let lo = Point3::new(pa.0.min(pb.0).min(pc.0.min(pd.0)), b.min.y, pa.1.min(pb.1).min(pc.1.min(pd.1)));
    let hi = Point3::new(pa.0.max(pb.0).max(pc.0.max(pd.0)), b.max.y, pa.1.max(pb.1).max(pc.1.max(pd.1)));
    let bx = Aabb::new(lo, hi);
    if bx.check_bounded() {
        Some(bx)
    } else {
        None
    }
}

/// The medium's intersection: probes the boundary for the inside segment,
/// draws a free-path distance (an exponential sample scaled by the
/// density), and scatters if the path ends inside the segment.
fn medium_hit_exec(
    m: &ConstantMedium,
    r: &Ray,
    t_min: Fx,
    t_max: Fx,
    rng: &mut rand::rngs::ThreadRng,
) -> (res: Option<HitRecord>)
    requires
        ray_wf(*r),
        medium_wf(*m),
        surf_wf(*m.boundary),
        mag(t_min@) <= WORLD_MAX as int,
        mag(t_max@) <= WORLD_MAX as int,
    ensures
        !has_medium(*m.boundary) ==> exists|hd: int|
            0 <= hd <= 33 * (WORLD_MAX as int) && res == medium_hit_with(*m, *r, t_min@, t_max@, hd),
        res matches Some(rec) ==> rec_wf(rec),
    decreases *m,
{
    let nl2 = crate::rng::rand_neg_log2(rng);
    proof {
        crate::fixed::lemma_fx_mul_signs(-m.neg_inv_density@, crate::constant_medium::LN2_FX as int);
        lemma_fx_mul_bound(
            -m.neg_inv_density@,
            crate::constant_medium::LN2_FX as int,
            WORLD_MAX as int,
            SCALE as int,
        );
    }
    let lrate = m.neg_inv_density.neg().mul(Fx::from_raw(crate::constant_medium::LN2_FX));
    proof {
        crate::fixed::lemma_fx_mul_signs(lrate@, nl2@);
        lemma_fx_mul_bound(lrate@, nl2@, WORLD_MAX as int, 33 * SCALE as int);
        assert((WORLD_MAX as int) * (33 * (SCALE as int)) / (SCALE as int) == 33 * (
        WORLD_MAX as int)) by (nonlinear_arith);
    }
    let hd = lrate.mul(nl2);
    let wlo = Fx::from_raw(-WORLD_MAX);
    let whi = Fx::from_raw(WORLD_MAX);
    let rec1 = match m.boundary.hit(r, wlo, whi, rng) {
        Some(rec) => rec,
        None => {
            proof {
                if !has_medium(*m.boundary) {
                    witness_hd(*m, *r, t_min@, t_max@, hd@, None);
                }
            }
            return None;
        },
    };
    let lo2 = if rec1.t.raw + crate::aarect::EPS_PAD <= WORLD_MAX {
        Fx::from_raw(rec1.t.raw + crate::aarect::EPS_PAD)
    } else {
        whi
    };
    let rec2 = match m.boundary.hit(r, lo2, whi, rng) {
        Some(rec) => rec,
        None => {
            proof {
                if !has_medium(*m.boundary) {
                    witness_hd(*m, *r, t_min@, t_max@, hd@, None);
                }
            }
            return None;
        },
    };
    let ta = rec1.t.max(t_min);
    let tb = rec2.t.min(t_max);
    if !ta.lt(tb) {
        proof {
            if !has_medium(*m.boundary) {
                witness_hd(*m, *r, t_min@, t_max@, hd@, None);
            }
        }
        return None;
    }
    let ta2 = ta.max(Fx::zero());
    let len = r.dir.modulus();
    if len.raw <= 0 {
        proof {
            if !has_medium(*m.boundary) {
                witness_hd(*m, *r, t_min@, t_max@, hd@, None);
            }
        }
        return None;
    }
    proof {
        lemma_fx_mul_bound(tb@ - ta2@, len@, 2 * WORLD_MAX as int, 0x8000_0000);
        crate::fixed::lemma_fx_mul_signs(tb@ - ta2@, len@);
    }
    let dist = tb.sub(ta2).mul(len);
    if dist.lt(hd) {
        proof {
            if !has_medium(*m.boundary) {
                witness_hd(*m, *r, t_min@, t_max@, hd@, None);
            }
        }
        return None;
    }
    proof {
        crate::fixed::lemma_fx_div_fits(hd@, len@, 0x7fff_ffff_ffff);
        crate::fixed::lemma_rtz_mag(hd@ * (SCALE as int), len@);
        vstd::arithmetic::div_mod::lemma_div_pos_is_pos(mag(hd@ * (SCALE as int)), len@);
        assert(mag(hd@ * (SCALE as int)) == hd@ * (SCALE as int)) by (nonlinear_arith)
            requires
                hd@ >= 0;
    }
    let dt = hd.div(len);
    let tt = ta2.add(dt);
    if !(tt.raw <= WORLD_MAX && tt.raw >= -WORLD_MAX) {
        proof {
            if !has_medium(*m.boundary) {
                witness_hd(*m, *r, t_min@, t_max@, hd@, None);
            }
        }
        return None;
    }
    let p = r.at(tt);
    if !p.check_in_world() {
        proof {
            if !has_medium(*m.boundary) {
                witness_hd(*m, *r, t_min@, t_max@, hd@, None);
            }
        }
        return None;
    }
    let rec = HitRecord {
        point: p,
        normal: Vec3::new(Fx::one(), Fx::zero(), Fx::zero()),
        t: tt,
        u: Fx::zero(),
        v: Fx::zero(),
        front_face: true,
        mat: m.phase,
    };
    proof {
        if !has_medium(*m.boundary) {
            witness_hd(*m, *r, t_min@, t_max@, hd@, Some(rec));
        }
    }
    Some(rec)
}

/// Names the drawn free path as the witness of the medium's contract.
/// (The equality hypothesis is established at each call site; this keeps
/// the existential introduction in one place.)
proof fn witness_hd(m: ConstantMedium, r: Ray, t0: int, t1: int, hd: int, res: Option<HitRecord>)
    requires
        0 <= hd <= 33 * (WORLD_MAX as int),
        medium_hit_with(m, r, t0, t1, hd) == res,
    ensures
        exists|h: int|
            0 <= h <= 33 * (WORLD_MAX as int) && res == medium_hit_with(m, r, t0, t1, h),
{
    assert(0 <= hd <= 33 * (WORLD_MAX as int) && res == medium_hit_with(m, r, t0, t1, hd));
}

/// Products with a sine or cosine keep the multiplicand's bound.
proof fn rot_mul_bounds(c: int, s: int, x: int, z: int)
    requires
        mag(c) <= SCALE as int,
        mag(s) <= SCALE as int,
        mag(x) <= 0x1_0000_0000_0000,
        mag(z) <= 0x1_0000_0000_0000,
    ensures
        mag(fx_mul(c, x)) <= 0x1_0000_0000_0000,
        mag(fx_mul(s, x)) <= 0x1_0000_0000_0000,
        mag(fx_mul(c, z)) <= 0x1_0000_0000_0000,
        mag(fx_mul(s, z)) <= 0x1_0000_0000_0000,
{
    lemma_fx_mul_bound(c, x, SCALE as int, 0x1_0000_0000_0000);
    lemma_fx_mul_bound(s, x, SCALE as int, 0x1_0000_0000_0000);
    lemma_fx_mul_bound(c, z, SCALE as int, 0x1_0000_0000_0000);
    lemma_fx_mul_bound(s, z, SCALE as int, 0x1_0000_0000_0000);
    assert((SCALE as int) * 0x1_0000_0000_0000 / (SCALE as int) == 0x1_0000_0000_0000);
}

/// The stored normal never points along the incoming ray: its dot product
/// with the ray direction is never positive.
pub proof fn lemma_normal_against_ray(r: Ray, outward: Vec3)
    requires
        in_world(outward),
    ensures
        dot_spec(r.dir, face_normal_spec(r, outward)) <= 0,
{
    if front_face_spec(r, outward) {
    } else {
        let n = face_normal_spec(r, outward);
        crate::fixed::lemma_fx_mul_neg_right(r.dir.x@, outward.x@);
        crate::fixed::lemma_fx_mul_neg_right(r.dir.y@, outward.y@);
        crate::fixed::lemma_fx_mul_neg_right(r.dir.z@, outward.z@);
    }
}

} // verus!
