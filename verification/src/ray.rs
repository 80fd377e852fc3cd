//! Rays: origin, direction and a shutter-time stamp.

use vstd::prelude::*;
use crate::fixed::{Fx, fx_mul, mag};
use crate::vec3::{Point3, Vec3, in_world, DOT_ARG_MAX};

verus! {

/// A ray `origin + t * dir`, carrying the time at which it samples a moving
/// scene.  The direction need not be a unit vector.
#[derive(Clone, Copy, PartialEq, Eq, Structural, Debug)]
pub struct Ray {
    pub origin: Point3,
    pub dir: Vec3,
    pub time: Fx,
}

/// Origin and direction components small enough for all intersection
/// arithmetic in this crate.
pub open spec fn ray_wf(r: Ray) -> bool {
    &&& in_world(r.origin)
    &&& in_world(r.dir)
    &&& mag(r.time@) <= crate::vec3::WORLD_MAX as int
}

/// Raw x component of the point the ray reaches at parameter `t`.
pub open spec fn at_x(r: Ray, t: int) -> int {
    r.origin.x@ + fx_mul(r.dir.x@, t)
}

/// Raw y component of the point the ray reaches at parameter `t`.
pub open spec fn at_y(r: Ray, t: int) -> int {
    r.origin.y@ + fx_mul(r.dir.y@, t)
}

/// Raw z component of the point the ray reaches at parameter `t`.
pub open spec fn at_z(r: Ray, t: int) -> int {
    r.origin.z@ + fx_mul(r.dir.z@, t)
}

impl Ray {
    /// Builds a ray.
    pub fn new(origin: Point3, dir: Vec3, time: Fx) -> (r: Ray)
        ensures
            r == (Ray { origin, dir, time }),
    {
        Ray { origin, dir, time }
    }

    /// The point reached at parameter `t`.
    pub fn at(&self, t: Fx) -> (p: Point3)
        requires
            ray_wf(*self),
            mag(t@) <= DOT_ARG_MAX as int,
        ensures
            p.x@ == at_x(*self, t@),
            p.y@ == at_y(*self, t@),
            p.z@ == at_z(*self, t@),
    {
        self.origin.add(self.dir.scale(t))
    }
}

} // verus!
