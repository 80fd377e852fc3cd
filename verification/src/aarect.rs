//! Axis-aligned rectangles in the three plane orientations.

use vstd::prelude::*;
use crate::fixed::{Fx, SCALE, fx, fx_mul, fx_div, mag, lemma_fx_mul_bound, lemma_fx_div_fits};
use crate::vec3::{Point3, Vec3, in_world, WORLD_MAX};
use crate::ray::{Ray, ray_wf, at_x, at_y, at_z};
use crate::aabb::{Aabb, aabb_wf, aabb_ordered};
use crate::hittable::{HitRecord, face_normal, face_normal_spec, front_face_spec, rec_wf};
use crate::trig::lemma_ratio_unit;

verus! {

/// Raw padding added to a planar box along its normal axis so the box has
/// nonzero thickness (about `1e-4` world units).
pub const EPS_PAD: i64 = 7;

/// A rectangle in a plane of fixed `z = k`, spanning `[x0, x1] x [y0, y1]`.
#[derive(Clone, Copy, PartialEq, Eq, Structural, Debug)]
pub struct XYRect {
    pub mat: usize,
    pub x0: Fx,
    pub x1: Fx,
    pub y0: Fx,
    pub y1: Fx,
    pub k: Fx,
}

/// A rectangle in a plane of fixed `y = k`, spanning `[x0, x1] x [z0, z1]`.
#[derive(Clone, Copy, PartialEq, Eq, Structural, Debug)]
pub struct ZXRect {
    pub mat: usize,
    pub x0: Fx,
    pub x1: Fx,
    pub z0: Fx,
    pub z1: Fx,
    pub k: Fx,
}

/// A rectangle in a plane of fixed `x = k`, spanning `[y0, y1] x [z0, z1]`.
#[derive(Clone, Copy, PartialEq, Eq, Structural, Debug)]
pub struct YZRect {
    pub mat: usize,
    pub y0: Fx,
    pub y1: Fx,
    pub z0: Fx,
    pub z1: Fx,
    pub k: Fx,
}

pub open spec fn xy_rect_wf(s: XYRect) -> bool {
    &&& mag(s.x0@) <= WORLD_MAX as int && mag(s.x1@) <= WORLD_MAX as int
    &&& mag(s.y0@) <= WORLD_MAX as int && mag(s.y1@) <= WORLD_MAX as int
    &&& mag(s.k@) <= WORLD_MAX as int
    &&& s.x0@ < s.x1@ && s.y0@ < s.y1@
}

pub open spec fn zx_rect_wf(s: ZXRect) -> bool {
    &&& mag(s.x0@) <= WORLD_MAX as int && mag(s.x1@) <= WORLD_MAX as int
    &&& mag(s.z0@) <= WORLD_MAX as int && mag(s.z1@) <= WORLD_MAX as int
    &&& mag(s.k@) <= WORLD_MAX as int
    &&& s.x0@ < s.x1@ && s.z0@ < s.z1@
}

pub open spec fn yz_rect_wf(s: YZRect) -> bool {
    &&& mag(s.y0@) <= WORLD_MAX as int && mag(s.y1@) <= WORLD_MAX as int
    &&& mag(s.z0@) <= WORLD_MAX as int && mag(s.z1@) <= WORLD_MAX as int
    &&& mag(s.k@) <= WORLD_MAX as int
    &&& s.y0@ < s.y1@ && s.z0@ < s.z1@
}

/// Plane intersection shared by the three orientations: the parameter at
/// which the ray crosses the plane of fixed coordinate `k` along the axis
/// whose origin/direction components are `o` and `d`.  A ray parallel to
/// the plane (`d == 0`) misses.
pub open spec fn plane_t(o: int, d: int, k: int) -> Option<int> {
    if d == 0 {
        None
    } else {
        Some(fx_div(k - o, d))
    }
}

/// Intersection of a ray with an `XYRect`, mirrored exactly: the plane
/// parameter must lie in `(t0, t1]`, the in-plane point within the bounds;
/// the record carries the fractional in-plane position as `u, v` and the
/// `+z` outward normal, flipped to face the ray.
pub open spec fn xy_rect_hit_spec(s: XYRect, r: Ray, t0: int, t1: int) -> Option<HitRecord> {
    match plane_t(r.origin.z@, r.dir.z@, s.k@) {
        None => None,
        Some(t) => {
            if !(t0 < t <= t1) {
                None
            } else {
                let x = r.origin.x@ + fx_mul(r.dir.x@, t);
                let y = r.origin.y@ + fx_mul(r.dir.y@, t);
                if x < s.x0@ || x > s.x1@ || y < s.y0@ || y > s.y1@ {
                    None
                } else {
                    let p = Vec3 { x: fx(at_x(r, t)), y: fx(at_y(r, t)), z: fx(at_z(r, t)) };
                    if in_world(p) {
                        let ow = Vec3 { x: fx(0), y: fx(0), z: fx(SCALE as int) };
                        Some(
                            HitRecord {
                                point: p,
                                normal: face_normal_spec(r, ow),
                                t: fx(t),
                                u: fx(fx_div(x - s.x0@, s.x1@ - s.x0@)),
                                v: fx(fx_div(y - s.y0@, s.y1@ - s.y0@)),
                                front_face: front_face_spec(r, ow),
                                mat: s.mat,
                            },
                        )
                    } else {
                        None
                    }
                }
            }
        },
    }
}

/// Intersection with a `ZXRect` (plane of fixed `y`), `+y` outward normal.
pub open spec fn zx_rect_hit_spec(s: ZXRect, r: Ray, t0: int, t1: int) -> Option<HitRecord> {
    match plane_t(r.origin.y@, r.dir.y@, s.k@) {
        None => None,
        Some(t) => {
            if !(t0 < t <= t1) {
                None
            } else {
                let x = r.origin.x@ + fx_mul(r.dir.x@, t);
                let z = r.origin.z@ + fx_mul(r.dir.z@, t);
                if x < s.x0@ || x > s.x1@ || z < s.z0@ || z > s.z1@ {
                    None
                } else {
                    let p = Vec3 { x: fx(at_x(r, t)), y: fx(at_y(r, t)), z: fx(at_z(r, t)) };
                    if in_world(p) {
                        let ow = Vec3 { x: fx(0), y: fx(SCALE as int), z: fx(0) };
                        Some(
                            HitRecord {
                                point: p,
                                normal: face_normal_spec(r, ow),
                                t: fx(t),
                                u: fx(fx_div(x - s.x0@, s.x1@ - s.x0@)),
                                v: fx(fx_div(z - s.z0@, s.z1@ - s.z0@)),
                                front_face: front_face_spec(r, ow),
                                mat: s.mat,
                            },
                        )
                    } else {
                        None
                    }
                }
            }
        },
    }
}

/// Intersection with a `YZRect` (plane of fixed `x`), `+x` outward normal.
pub open spec fn yz_rect_hit_spec(s: YZRect, r: Ray, t0: int, t1: int) -> Option<HitRecord> {
    match plane_t(r.origin.x@, r.dir.x@, s.k@) {
        None => None,
        Some(t) => {
            if !(t0 < t <= t1) {
                None
            } else {
                let y = r.origin.y@ + fx_mul(r.dir.y@, t);
                let z = r.origin.z@ + fx_mul(r.dir.z@, t);
                if y < s.y0@ || y > s.y1@ || z < s.z0@ || z > s.z1@ {
                    None
                } else {
                    let p = Vec3 { x: fx(at_x(r, t)), y: fx(at_y(r, t)), z: fx(at_z(r, t)) };
                    if in_world(p) {
                        let ow = Vec3 { x: fx(SCALE as int), y: fx(0), z: fx(0) };
                        Some(
                            HitRecord {
                                point: p,
                                normal: face_normal_spec(r, ow),
                                t: fx(t),
                                u: fx(fx_div(y - s.y0@, s.y1@ - s.y0@)),
                                v: fx(fx_div(z - s.z0@, s.z1@ - s.z0@)),
                                front_face: front_face_spec(r, ow),
                                mat: s.mat,
                            },
                        )
                    } else {
                        None
                    }
                }
            }
        },
    }
}

/// Exec plane crossing; mirrors `plane_t` and bounds the result when the
/// interval bounds accept it.
fn plane_cross(o: Fx, d: Fx, k: Fx, t_min: Fx, t_max: Fx) -> (res: Option<Fx>)
    requires
        mag(o@) <= WORLD_MAX as int,
        mag(k@) <= WORLD_MAX as int,
        mag(t_min@) <= WORLD_MAX as int,
        mag(t_max@) <= WORLD_MAX as int,
    ensures
        res matches Some(t) ==> plane_t(o@, d@, k@) == Some(t@) && t_min@ < t@ <= t_max@ && mag(
            t@,
        ) <= WORLD_MAX as int,
        res is None ==> (plane_t(o@, d@, k@) matches Some(t) ==> !(t_min@ < t <= t_max@)) && (
        plane_t(o@, d@, k@) is None ==> true),
{
    if d.raw == 0 {
        return None;
    }
    proof {
        lemma_fx_div_fits(k@ - o@, d@, 2 * WORLD_MAX as int);
    }
    let t = k.sub(o).div(d);
    if t_min.lt(t) && t.le(t_max) {
        Some(t)
    } else {
        None
    }
}

impl XYRect {
    /// Builds a rectangle from its material, spans and plane coordinate.
    pub fn new(mat: usize, x0: Fx, x1: Fx, y0: Fx, y1: Fx, k: Fx) -> (s: XYRect)
        ensures
            s == (XYRect { mat, x0, x1, y0, y1, k }),
    {
        XYRect { mat, x0, x1, y0, y1, k }
    }

    /// Nearest intersection in `(t_min, t_max]`.
    pub fn hit(&self, r: &Ray, t_min: Fx, t_max: Fx) -> (res: Option<HitRecord>)
        requires
            ray_wf(*r),
            xy_rect_wf(*self),
            mag(t_min@) <= WORLD_MAX as int,
            mag(t_max@) <= WORLD_MAX as int,
        ensures
            res == xy_rect_hit_spec(*self, *r, t_min@, t_max@),
            res matches Some(rec) ==> rec_wf(rec) && rec.mat == self.mat && 0 <= rec.u@
                <= SCALE as int && 0 <= rec.v@ <= SCALE as int,
    {
        let t = match plane_cross(r.origin.z, r.dir.z, self.k, t_min, t_max) {
            Some(t) => t,
            None => {
                return None;
            },
        };
        proof {
            lemma_fx_mul_bound(r.dir.x@, t@, WORLD_MAX as int, WORLD_MAX as int);
            lemma_fx_mul_bound(r.dir.y@, t@, WORLD_MAX as int, WORLD_MAX as int);
            lemma_fx_mul_bound(r.dir.z@, t@, WORLD_MAX as int, WORLD_MAX as int);
        }
        let x = r.origin.x.add(r.dir.x.mul(t));
        let y = r.origin.y.add(r.dir.y.mul(t));
        if x.lt(self.x0) || self.x1.lt(x) || y.lt(self.y0) || self.y1.lt(y) {
            return None;
        }
        let p = r.at(t);
        if !p.check_in_world() {
            return None;
        }
        proof {
            lemma_ratio_unit(x@ - self.x0@, self.x1@ - self.x0@);
            lemma_ratio_unit(y@ - self.y0@, self.y1@ - self.y0@);
        }
        let u = x.sub(self.x0).div(self.x1.sub(self.x0));
        let v = y.sub(self.y0).div(self.y1.sub(self.y0));
        let ow = Vec3::new(Fx::zero(), Fx::zero(), Fx::one());
        let fres = face_normal(r, &ow);
        Some(
            HitRecord {
                point: p,
                normal: fres.1,
                t,
                u,
                v,
                front_face: fres.0,
                mat: self.mat,
            },
        )
    }

    /// The rectangle's box, padded along `z`.
    pub fn bounding_box(&self) -> (bx: Aabb)
        requires
            xy_rect_wf(*self),
        ensures
            bx.min.x@ == self.x0@ && bx.min.y@ == self.y0@ && bx.min.z@ == self.k@ - EPS_PAD as int,
            bx.max.x@ == self.x1@ && bx.max.y@ == self.y1@ && bx.max.z@ == self.k@ + EPS_PAD as int,
            aabb_wf(bx) && aabb_ordered(bx),
    {
        Aabb::new(
            Point3::new(self.x0, self.y0, Fx::from_raw(self.k.raw - EPS_PAD)),
            Point3::new(self.x1, self.y1, Fx::from_raw(self.k.raw + EPS_PAD)),
        )
    }
}

impl ZXRect {
    /// Builds a rectangle from its material, spans and plane coordinate.
    pub fn new(mat: usize, x0: Fx, x1: Fx, z0: Fx, z1: Fx, k: Fx) -> (s: ZXRect)
        ensures
            s == (ZXRect { mat, x0, x1, z0, z1, k }),
    {
        ZXRect { mat, x0, x1, z0, z1, k }
    }

    /// Nearest intersection in `(t_min, t_max]`.
    pub fn hit(&self, r: &Ray, t_min: Fx, t_max: Fx) -> (res: Option<HitRecord>)
        requires
            ray_wf(*r),
            zx_rect_wf(*self),
            mag(t_min@) <= WORLD_MAX as int,
            mag(t_max@) <= WORLD_MAX as int,
        ensures
            res == zx_rect_hit_spec(*self, *r, t_min@, t_max@),
            res matches Some(rec) ==> rec_wf(rec) && rec.mat == self.mat && 0 <= rec.u@
                <= SCALE as int && 0 <= rec.v@ <= SCALE as int,
    {
        let t = match plane_cross(r.origin.y, r.dir.y, self.k, t_min, t_max) {
            Some(t) => t,
            None => {
                return None;
            },
        };
        proof {
            lemma_fx_mul_bound(r.dir.x@, t@, WORLD_MAX as int, WORLD_MAX as int);
            lemma_fx_mul_bound(r.dir.y@, t@, WORLD_MAX as int, WORLD_MAX as int);
            lemma_fx_mul_bound(r.dir.z@, t@, WORLD_MAX as int, WORLD_MAX as int);
        }
        let x = r.origin.x.add(r.dir.x.mul(t));
        let z = r.origin.z.add(r.dir.z.mul(t));
        if x.lt(self.x0) || self.x1.lt(x) || z.lt(self.z0) || self.z1.lt(z) {
            return None;
        }
        let p = r.at(t);
        if !p.check_in_world() {
            return None;
        }
        proof {
            lemma_ratio_unit(x@ - self.x0@, self.x1@ - self.x0@);
            lemma_ratio_unit(z@ - self.z0@, self.z1@ - self.z0@);
        }
        let u = x.sub(self.x0).div(self.x1.sub(self.x0));
        let v = z.sub(self.z0).div(self.z1.sub(self.z0));
        let ow = Vec3::new(Fx::zero(), Fx::one(), Fx::zero());
        let fres = face_normal(r, &ow);
        Some(
            HitRecord {
                point: p,
                normal: fres.1,
                t,
                u,
                v,
                front_face: fres.0,
                mat: self.mat,
            },
        )
    }

    /// The rectangle's box, padded along `y`.
    pub fn bounding_box(&self) -> (bx: Aabb)
        requires
            zx_rect_wf(*self),
        ensures
            bx.min.x@ == self.x0@ && bx.min.y@ == self.k@ - EPS_PAD as int && bx.min.z@ == self.z0@,
            bx.max.x@ == self.x1@ && bx.max.y@ == self.k@ + EPS_PAD as int && bx.max.z@ == self.z1@,
            aabb_wf(bx) && aabb_ordered(bx),
    {
        Aabb::new(
            Point3::new(self.x0, Fx::from_raw(self.k.raw - EPS_PAD), self.z0),
            Point3::new(self.x1, Fx::from_raw(self.k.raw + EPS_PAD), self.z1),
        )
    }
}

impl YZRect {
    /// Builds a rectangle from its material, spans and plane coordinate.
    pub fn new(mat: usize, y0: Fx, y1: Fx, z0: Fx, z1: Fx, k: Fx) -> (s: YZRect)
        ensures
            s == (YZRect { mat, y0, y1, z0, z1, k }),
    {
        YZRect { mat, y0, y1, z0, z1, k }
    }

    /// Nearest intersection in `(t_min, t_max]`.
    pub fn hit(&self, r: &Ray, t_min: Fx, t_max: Fx) -> (res: Option<HitRecord>)
        requires
            ray_wf(*r),
            yz_rect_wf(*self),
            mag(t_min@) <= WORLD_MAX as int,
            mag(t_max@) <= WORLD_MAX as int,
        ensures
            res == yz_rect_hit_spec(*self, *r, t_min@, t_max@),
            res matches Some(rec) ==> rec_wf(rec) && rec.mat == self.mat && 0 <= rec.u@
                <= SCALE as int && 0 <= rec.v@ <= SCALE as int,
    {
        let t = match plane_cross(r.origin.x, r.dir.x, self.k, t_min, t_max) {
            Some(t) => t,
            None => {
                return None;
            },
        };
        proof {
            lemma_fx_mul_bound(r.dir.x@, t@, WORLD_MAX as int, WORLD_MAX as int);
            lemma_fx_mul_bound(r.dir.y@, t@, WORLD_MAX as int, WORLD_MAX as int);
            lemma_fx_mul_bound(r.dir.z@, t@, WORLD_MAX as int, WORLD_MAX as int);
        }
        let y = r.origin.y.add(r.dir.y.mul(t));
        let z = r.origin.z.add(r.dir.z.mul(t));
        if y.lt(self.y0) || self.y1.lt(y) || z.lt(self.z0) || self.z1.lt(z) {
            return None;
        }
        let p = r.at(t);
        if !p.check_in_world() {
            return None;
        }
        proof {
            lemma_ratio_unit(y@ - self.y0@, self.y1@ - self.y0@);
            lemma_ratio_unit(z@ - self.z0@, self.z1@ - self.z0@);
        }
        let u = y.sub(self.y0).div(self.y1.sub(self.y0));
        let v = z.sub(self.z0).div(self.z1.sub(self.z0));
        let ow = Vec3::new(Fx::one(), Fx::zero(), Fx::zero());
        let fres = face_normal(r, &ow);
        Some(
            HitRecord {
                point: p,
                normal: fres.1,
                t,
                u,
                v,
                front_face: fres.0,
                mat: self.mat,
            },
        )
    }

    /// The rectangle's box, padded along `x`.
    pub fn bounding_box(&self) -> (bx: Aabb)
        requires
            yz_rect_wf(*self),
        ensures
            bx.min.x@ == self.k@ - EPS_PAD as int && bx.min.y@ == self.y0@ && bx.min.z@ == self.z0@,
            bx.max.x@ == self.k@ + EPS_PAD as int && bx.max.y@ == self.y1@ && bx.max.z@ == self.z1@,
            aabb_wf(bx) && aabb_ordered(bx),
    {
        Aabb::new(
            Point3::new(Fx::from_raw(self.k.raw - EPS_PAD), self.y0, self.z0),
            Point3::new(Fx::from_raw(self.k.raw + EPS_PAD), self.y1, self.z1),
        )
    }
}

} // verus!
