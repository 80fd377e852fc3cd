//! An axis-aligned box made of six rectangles.

use vstd::prelude::*;
use crate::fixed::{Fx, mag};
use crate::vec3::{Point3, in_world, WORLD_MAX};
use crate::ray::{Ray, ray_wf};
use crate::aabb::{Aabb, aabb_wf, aabb_ordered};
use crate::aarect::{XYRect, ZXRect, YZRect, xy_rect_hit_spec, zx_rect_hit_spec, yz_rect_hit_spec};
use crate::hittable::{HitRecord, rec_wf};

verus! {

/// A box spanning `cube_min` to `cube_max`, bounded by six rectangles that
/// all share one material.
#[derive(Clone, Copy, PartialEq, Eq, Structural, Debug)]
pub struct Cube {
    pub cube_min: Point3,
    pub cube_max: Point3,
    pub mat: usize,
}

/// Corners in world range and strictly ordered, so each face is a proper
/// rectangle.
pub open spec fn cube_wf(c: Cube) -> bool {
    &&& in_world(c.cube_min)
    &&& in_world(c.cube_max)
    &&& c.cube_min.x@ < c.cube_max.x@
    &&& c.cube_min.y@ < c.cube_max.y@
    &&& c.cube_min.z@ < c.cube_max.z@
}

/// The six faces, in the order the intersection scan probes them.
pub open spec fn cube_face_xy_hi(c: Cube) -> XYRect {
    XYRect {
        mat: c.mat,
        x0: c.cube_min.x,
        x1: c.cube_max.x,
        y0: c.cube_min.y,
        y1: c.cube_max.y,
        k: c.cube_max.z,
    }
}

pub open spec fn cube_face_xy_lo(c: Cube) -> XYRect {
    XYRect {
        mat: c.mat,
        x0: c.cube_min.x,
        x1: c.cube_max.x,
        y0: c.cube_min.y,
        y1: c.cube_max.y,
        k: c.cube_min.z,
    }
}

pub open spec fn cube_face_zx_hi(c: Cube) -> ZXRect {
    ZXRect {
        mat: c.mat,
        x0: c.cube_min.x,
        x1: c.cube_max.x,
        z0: c.cube_min.z,
        z1: c.cube_max.z,
        k: c.cube_max.y,
    }
}

pub open spec fn cube_face_zx_lo(c: Cube) -> ZXRect {
    ZXRect {
        mat: c.mat,
        x0: c.cube_min.x,
        x1: c.cube_max.x,
        z0: c.cube_min.z,
        z1: c.cube_max.z,
        k: c.cube_min.y,
    }
}

pub open spec fn cube_face_yz_hi(c: Cube) -> YZRect {
    YZRect {
        mat: c.mat,
        y0: c.cube_min.y,
        y1: c.cube_max.y,
        z0: c.cube_min.z,
        z1: c.cube_max.z,
        k: c.cube_max.x,
    }
}

pub open spec fn cube_face_yz_lo(c: Cube) -> YZRect {
    YZRect {
        mat: c.mat,
        y0: c.cube_min.y,
        y1: c.cube_max.y,
        z0: c.cube_min.z,
        z1: c.cube_max.z,
        k: c.cube_min.x,
    }
}

/// Merge step of a nearest-hit scan: a new hit (already confined to the
/// tightened range) replaces the best so far.
pub open spec fn merge_hit(best: Option<HitRecord>, new: Option<HitRecord>) -> Option<
    HitRecord,
> {
    match new {
        Some(rec) => Some(rec),
        None => best,
    }
}

/// Upper bound for the next probe of a nearest-hit scan.
pub open spec fn cur_bound(best: Option<HitRecord>, t1: int) -> int {
    match best {
        Some(rec) => rec.t@,
        None => t1,
    }
}

/// Nearest intersection among the six faces, probed in order with the
/// running nearest parameter as the upper bound.
pub open spec fn cube_hit_spec(c: Cube, r: Ray, t0: int, t1: int) -> Option<HitRecord> {
    let b1 = merge_hit(None, xy_rect_hit_spec(cube_face_xy_hi(c), r, t0, t1));
    let b2 = merge_hit(b1, xy_rect_hit_spec(cube_face_xy_lo(c), r, t0, cur_bound(b1, t1)));
    let b3 = merge_hit(b2, zx_rect_hit_spec(cube_face_zx_hi(c), r, t0, cur_bound(b2, t1)));
    let b4 = merge_hit(b3, zx_rect_hit_spec(cube_face_zx_lo(c), r, t0, cur_bound(b3, t1)));
    let b5 = merge_hit(b4, yz_rect_hit_spec(cube_face_yz_hi(c), r, t0, cur_bound(b4, t1)));
    merge_hit(b5, yz_rect_hit_spec(cube_face_yz_lo(c), r, t0, cur_bound(b5, t1)))
}

impl Cube {
    /// Builds a box from two corner points and one material handle.
    pub fn new(p0: Point3, p1: Point3, mat: usize) -> (c: Cube)
        ensures
            c == (Cube { cube_min: p0, cube_max: p1, mat }),
    {
        Cube { cube_min: p0, cube_max: p1, mat }
    }

    /// Nearest intersection in `(t_min, t_max]` over the six faces.
    pub fn hit(&self, r: &Ray, t_min: Fx, t_max: Fx) -> (res: Option<HitRecord>)
        requires
            ray_wf(*r),
            cube_wf(*self),
            mag(t_min@) <= WORLD_MAX as int,
            mag(t_max@) <= WORLD_MAX as int,
        ensures
            res == cube_hit_spec(*self, *r, t_min@, t_max@),
            res matches Some(rec) ==> rec_wf(rec) && rec.mat == self.mat,
    {
        let mut best: Option<HitRecord> = None;
        let mut bound: Fx = t_max;
        let f1 = XYRect::new(
            self.mat,
            self.cube_min.x,
            self.cube_max.x,
            self.cube_min.y,
            self.cube_max.y,
            self.cube_max.z,
        ).hit(r, t_min, bound);
        if let Some(rec) = f1 {
            best = Some(rec);
            bound = rec.t;
        }
        let f2 = XYRect::new(
            self.mat,
            self.cube_min.x,
            self.cube_max.x,
            self.cube_min.y,
            self.cube_max.y,
            self.cube_min.z,
        ).hit(r, t_min, bound);
        if let Some(rec) = f2 {
            best = Some(rec);
            bound = rec.t;
        }
        let f3 = ZXRect::new(
            self.mat,
            self.cube_min.x,
            self.cube_max.x,
            self.cube_min.z,
            self.cube_max.z,
            self.cube_max.y,
        ).hit(r, t_min, bound);
        if let Some(rec) = f3 {
            best = Some(rec);
            bound = rec.t;
        }
        let f4 = ZXRect::new(
            self.mat,
            self.cube_min.x,
            self.cube_max.x,
            self.cube_min.z,
            self.cube_max.z,
            self.cube_min.y,
        ).hit(r, t_min, bound);
        if let Some(rec) = f4 {
            best = Some(rec);
            bound = rec.t;
        }
        let f5 = YZRect::new(
            self.mat,
            self.cube_min.y,
            self.cube_max.y,
            self.cube_min.z,
            self.cube_max.z,
            self.cube_max.x,
        ).hit(r, t_min, bound);
        if let Some(rec) = f5 {
            best = Some(rec);
            bound = rec.t;
        }
        let f6 = YZRect::new(
            self.mat,
            self.cube_min.y,
            self.cube_max.y,
            self.cube_min.z,
            self.cube_max.z,
            self.cube_min.x,
        ).hit(r, t_min, bound);
        if let Some(rec) = f6 {
            best = Some(rec);
        }
        best
    }

    /// The literal corner box: a true volume, no padding needed.
    pub fn bounding_box(&self) -> (bx: Aabb)
        requires
            cube_wf(*self),
        ensures
            bx.min == self.cube_min,
            bx.max == self.cube_max,
            aabb_wf(bx) && aabb_ordered(bx),
    {
        Aabb::new(self.cube_min, self.cube_max)
    }
}

} // verus!
