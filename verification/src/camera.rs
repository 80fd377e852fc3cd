//! The camera: maps normalized image coordinates and a lens sample to a
//! world-space ray with depth of field and motion blur.

use vstd::prelude::*;
use crate::fixed::{Fx, SCALE, fx, fx_mul, fx_sqrt, rtz, mag, lemma_fx_mul_bound, lemma_fx_div_fits};
use crate::vec3::{
    Point3, Vec3, cross, cross_spec_x, cross_spec_y, cross_spec_z, dot_spec, v3_bounded, in_world,
    WORLD_MAX,
};
use crate::vec3_ops::{random_unit_disk, unit_spec};
use crate::ray::{Ray, ray_wf};
use crate::rng::{rand_range};

verus! {

/// Raw bound on the camera's derived vectors: an eighth of the world
/// bound, so that the sum of five of them still yields a world-range ray
/// direction.
pub const CAM_MAX: i64 = 0x800_0000;

/// Why camera construction failed: a viewing basis could not be derived
/// (parallel or zero axes), or the viewport left the representable range.
#[derive(Clone, Copy, PartialEq, Eq, Structural, Debug)]
pub enum CameraError {
    DegenerateBasis,
    ViewportOutOfRange,
}

/// A fully derived camera.  `half_height` at construction is the tangent
/// of half the vertical field of view, supplied by the caller.
pub struct Camera {
    pub origin: Point3,
    pub lower_left_corner: Point3,
    pub horizontal: Vec3,
    pub vertical: Vec3,
    pub u: Vec3,
    pub v: Vec3,
    pub w: Vec3,
    pub lens_radius: Fx,
    pub time0: Fx,
    pub time1: Fx,
}

/// Derived fields small enough that every ray built from them stays in
/// world range, and a nonempty shutter interval.
pub open spec fn camera_wf(c: Camera) -> bool {
    &&& v3_bounded(c.origin, CAM_MAX as int)
    &&& v3_bounded(c.lower_left_corner, CAM_MAX as int)
    &&& v3_bounded(c.horizontal, CAM_MAX as int)
    &&& v3_bounded(c.vertical, CAM_MAX as int)
    &&& v3_bounded(c.u, 2 * SCALE as int)
    &&& v3_bounded(c.v, 2 * SCALE as int)
    &&& 0 <= c.lens_radius@ <= SCALE as int
    &&& c.time0@ < c.time1@
    &&& mag(c.time0@) <= WORLD_MAX as int
    &&& mag(c.time1@) <= WORLD_MAX as int
}

/// The mirror of one scaled viewport axis: the axis times the extent
/// times the focus distance, or none when a component leaves camera range.
pub open spec fn scaled_axis_spec(axis: Vec3, extent: int, focus: int) -> Option<Vec3> {
    let h = Vec3 {
        x: fx(fx_mul(fx_mul(axis.x@, extent), focus)),
        y: fx(fx_mul(fx_mul(axis.y@, extent), focus)),
        z: fx(fx_mul(fx_mul(axis.z@, extent), focus)),
    };
    if v3_bounded(h, CAM_MAX as int) {
        Some(h)
    } else {
        None
    }
}

/// The exact mirror of camera construction: every runtime check and every
/// derived field, so success and failure are pinned if and only if.
pub open spec fn camera_new_spec(
    lookfrom: Point3,
    lookat: Point3,
    vup: Vec3,
    half_height: Fx,
    aspect_ratio: Fx,
    aperture: Fx,
    focus_dist: Fx,
    time0: Fx,
    time1: Fx,
) -> Result<Camera, CameraError> {
    if !(time0@ < time1@) {
        Err(CameraError::ViewportOutOfRange)
    } else if !(v3_bounded(vup, 16 * SCALE as int) && 0 <= half_height@ <= 8 * SCALE as int && 0
        <= aspect_ratio@ <= 8 * SCALE as int && 0 <= aperture@ <= 2 * SCALE as int && 0
        <= focus_dist@ <= WORLD_MAX as int) {
        Err(CameraError::ViewportOutOfRange)
    } else {
        let gaze = Vec3 {
            x: fx(lookfrom.x@ - lookat.x@),
            y: fx(lookfrom.y@ - lookat.y@),
            z: fx(lookfrom.z@ - lookat.z@),
        };
        let glen = fx_sqrt(dot_spec(gaze, gaze));
        if glen <= 0 {
            Err(CameraError::DegenerateBasis)
        } else {
            let w = unit_spec(gaze);
            if !v3_bounded(w, 2 * SCALE as int) {
                Err(CameraError::DegenerateBasis)
            } else {
                let cu = Vec3 {
                    x: fx(cross_spec_x(vup, w)),
                    y: fx(cross_spec_y(vup, w)),
                    z: fx(cross_spec_z(vup, w)),
                };
                if !v3_bounded(cu, 0x8000_0000) {
                    Err(CameraError::DegenerateBasis)
                } else {
                    let culen = fx_sqrt(dot_spec(cu, cu));
                    if culen <= 0 {
                        Err(CameraError::DegenerateBasis)
                    } else {
                        let u = unit_spec(cu);
                        if !v3_bounded(u, 2 * SCALE as int) {
                            Err(CameraError::DegenerateBasis)
                        } else {
                            let v = Vec3 {
                                x: fx(cross_spec_x(w, u)),
                                y: fx(cross_spec_y(w, u)),
                                z: fx(cross_spec_z(w, u)),
                            };
                            if !v3_bounded(v, 2 * SCALE as int) {
                                Err(CameraError::DegenerateBasis)
                            } else {
                                let vh = 2 * half_height@;
                                let vw = fx_mul(vh, aspect_ratio@);
                                match scaled_axis_spec(u, vw, focus_dist@) {
                                    None => Err(CameraError::ViewportOutOfRange),
                                    Some(horizontal) => match scaled_axis_spec(
                                        v,
                                        vh,
                                        focus_dist@,
                                    ) {
                                        None => Err(CameraError::ViewportOutOfRange),
                                        Some(vertical) => match scaled_axis_spec(
                                            w,
                                            SCALE as int,
                                            focus_dist@,
                                        ) {
                                            None => Err(CameraError::ViewportOutOfRange),
                                            Some(wf) => {
                                                if !v3_bounded(lookfrom, CAM_MAX as int) {
                                                    Err(CameraError::ViewportOutOfRange)
                                                } else {
                                                    let llc = Vec3 {
                                                        x: fx(
                                                            lookfrom.x@ - rtz(horizontal.x@, 2)
                                                                - rtz(vertical.x@, 2) - wf.x@,
                                                        ),
                                                        y: fx(
                                                            lookfrom.y@ - rtz(horizontal.y@, 2)
                                                                - rtz(vertical.y@, 2) - wf.y@,
                                                        ),
                                                        z: fx(
                                                            lookfrom.z@ - rtz(horizontal.z@, 2)
                                                                - rtz(vertical.z@, 2) - wf.z@,
                                                        ),
                                                    };
                                                    if !v3_bounded(llc, CAM_MAX as int) {
                                                        Err(CameraError::ViewportOutOfRange)
                                                    } else {
                                                        Ok(
                                                            Camera {
                                                                origin: lookfrom,
                                                                lower_left_corner: llc,
                                                                horizontal,
                                                                vertical,
                                                                u,
                                                                v,
                                                                w,
                                                                lens_radius: fx(rtz(aperture@, 2)),
                                                                time0,
                                                                time1,
                                                            },
                                                        )
                                                    }
                                                }
                                            },
                                        },
                                    },
                                }
                            }
                        }
                    }
                }
            }
        }
    }
}

impl Camera {
    /// Derives a camera from the usual parameters.  `half_height` is
    /// `tan(vfov / 2)`; the caller computes it (the library holds no
    /// trigonometric tables for arbitrary angles).  Fails when the viewing
    /// basis degenerates or the viewport leaves the representable range.
    pub fn new(
        lookfrom: Point3,
        lookat: Point3,
        vup: Vec3,
        half_height: Fx,
        aspect_ratio: Fx,
        aperture: Fx,
        focus_dist: Fx,
        time0: Fx,
        time1: Fx,
    ) -> (res: Result<Camera, CameraError>)
        requires
            in_world(lookfrom),
            in_world(lookat),
            mag(time0@) <= WORLD_MAX as int,
            mag(time1@) <= WORLD_MAX as int,
        ensures
            res == camera_new_spec(
                lookfrom,
                lookat,
                vup,
                half_height,
                aspect_ratio,
                aperture,
                focus_dist,
                time0,
                time1,
            ),
            res matches Ok(c) ==> camera_wf(c) && c.origin == lookfrom && c.time0 == time0
                && c.time1 == time1 && c.lens_radius@ == aperture@ / 2,
            time0@ >= time1@ ==> res is Err,
    {
        if !(time0.raw < time1.raw) {
            return Err(CameraError::ViewportOutOfRange);
        }
        if !(vup.check_bounded_abs(16 * SCALE) && 0 <= half_height.raw && half_height.raw <= 8
            * SCALE && 0 <= aspect_ratio.raw && aspect_ratio.raw <= 8 * SCALE && 0 <= aperture.raw
            && aperture.raw <= 2 * SCALE && 0 <= focus_dist.raw && focus_dist.raw <= WORLD_MAX) {
            return Err(CameraError::ViewportOutOfRange);
        }
        let gaze = lookfrom.sub(lookat);
        let glen = gaze.modulus();
        if glen.raw <= 0 {
            return Err(CameraError::DegenerateBasis);
        }
        proof {
            lemma_fx_div_fits(gaze.x@, glen@, 2 * WORLD_MAX as int);
            lemma_fx_div_fits(gaze.y@, glen@, 2 * WORLD_MAX as int);
            lemma_fx_div_fits(gaze.z@, glen@, 2 * WORLD_MAX as int);
        }
        let w = Vec3::new(gaze.x.div(glen), gaze.y.div(glen), gaze.z.div(glen));
        if !w.check_bounded_abs(2 * SCALE) {
            return Err(CameraError::DegenerateBasis);
        }
        let cu = cross(&vup, &w);
        if !cu.check_bounded_abs(0x8000_0000) {
            return Err(CameraError::DegenerateBasis);
        }
        let culen = cu.modulus();
        if culen.raw <= 0 {
            return Err(CameraError::DegenerateBasis);
        }
        proof {
            lemma_fx_div_fits(cu.x@, culen@, 2 * WORLD_MAX as int);
            lemma_fx_div_fits(cu.y@, culen@, 2 * WORLD_MAX as int);
            lemma_fx_div_fits(cu.z@, culen@, 2 * WORLD_MAX as int);
        }
        let u = Vec3::new(cu.x.div(culen), cu.y.div(culen), cu.z.div(culen));
        if !u.check_bounded_abs(2 * SCALE) {
            return Err(CameraError::DegenerateBasis);
        }
        let v = cross(&w, &u);
        if !v.check_bounded_abs(2 * SCALE) {
            return Err(CameraError::DegenerateBasis);
        }
        proof {
            lemma_fx_mul_bound(half_height@, 2 * SCALE as int, 8 * SCALE as int, 2 * SCALE as int);
        }
        let viewport_height = Fx::from_raw(2 * half_height.raw);
        proof {
            lemma_fx_mul_bound(
                viewport_height@,
                aspect_ratio@,
                16 * SCALE as int,
                8 * SCALE as int,
            );
            assert(16 * (SCALE as int) * (8 * (SCALE as int)) / (SCALE as int) == 128 * (
            SCALE as int)) by (nonlinear_arith);
        }
        let viewport_width = viewport_height.mul(aspect_ratio);
        let horizontal = match scaled_axis(&u, viewport_width, focus_dist) {
            Some(h) => h,
            None => {
                return Err(CameraError::ViewportOutOfRange);
            },
        };
        let vertical = match scaled_axis(&v, viewport_height, focus_dist) {
            Some(h) => h,
            None => {
                return Err(CameraError::ViewportOutOfRange);
            },
        };
        let wf = match scaled_axis(&w, Fx::one(), focus_dist) {
            Some(h) => h,
            None => {
                return Err(CameraError::ViewportOutOfRange);
            },
        };
        if !lookfrom.check_bounded_abs(CAM_MAX) {
            return Err(CameraError::ViewportOutOfRange);
        }
        proof {
            crate::fixed::lemma_rtz_mag(horizontal.x@, 2);
            crate::fixed::lemma_rtz_mag(horizontal.y@, 2);
            crate::fixed::lemma_rtz_mag(horizontal.z@, 2);
            crate::fixed::lemma_rtz_mag(vertical.x@, 2);
            crate::fixed::lemma_rtz_mag(vertical.y@, 2);
            crate::fixed::lemma_rtz_mag(vertical.z@, 2);
        }
        let llc = Vec3::new(
            Fx::from_raw(lookfrom.x.raw - horizontal.x.halve().raw - vertical.x.halve().raw - wf.x.raw),
            Fx::from_raw(lookfrom.y.raw - horizontal.y.halve().raw - vertical.y.halve().raw - wf.y.raw),
            Fx::from_raw(lookfrom.z.raw - horizontal.z.halve().raw - vertical.z.halve().raw - wf.z.raw),
        );
        if !llc.check_bounded_abs(CAM_MAX) {
            return Err(CameraError::ViewportOutOfRange);
        }
        let lens_radius = aperture.halve();
        proof {
            crate::fixed::lemma_rtz_mag(aperture@, 2);
        }
        Ok(
            Camera {
                origin: lookfrom,
                lower_left_corner: llc,
                horizontal,
                vertical,
                u,
                v,
                w,
                lens_radius,
                time0,
                time1,
            },
        )
    }

    /// The ray toward normalized viewport coordinates `(s, t)`: the origin
    /// jittered on the lens disk, the direction toward the viewport point,
    /// the time drawn uniformly within the shutter interval.  A ray is
    /// always produced: every possible lens draw keeps the origin and the
    /// direction within world range.  With a zero aperture the origin is
    /// exactly the camera's; whatever the draw, origin and direction sum
    /// exactly to the viewport point (the focal identity), the origin
    /// strays from the camera's by at most the scaled lens radius, and the
    /// time lies within the shutter interval.
    #[verifier::rlimit(100)]
    pub fn get_ray(&self, s: Fx, t: Fx, rng: &mut rand::rngs::ThreadRng) -> (ray: Ray)
        requires
            camera_wf(*self),
            0 <= s@ <= 2 * SCALE as int,
            0 <= t@ <= 2 * SCALE as int,
        ensures
            ray_wf(ray),
            self.time0@ <= ray.time@ < self.time1@,
            self.lens_radius@ == 0 ==> ray.origin == self.origin,
            ray.origin.x@ + ray.dir.x@ == self.lower_left_corner.x@ + fx_mul(
                self.horizontal.x@,
                s@,
            ) + fx_mul(self.vertical.x@, t@),
            ray.origin.y@ + ray.dir.y@ == self.lower_left_corner.y@ + fx_mul(
                self.horizontal.y@,
                s@,
            ) + fx_mul(self.vertical.y@, t@),
            ray.origin.z@ + ray.dir.z@ == self.lower_left_corner.z@ + fx_mul(
                self.horizontal.z@,
                s@,
            ) + fx_mul(self.vertical.z@, t@),
            mag(ray.origin.x@ - self.origin.x@) <= 64 * SCALE as int,
            mag(ray.origin.y@ - self.origin.y@) <= 64 * SCALE as int,
            mag(ray.origin.z@ - self.origin.z@) <= 64 * SCALE as int,
    {
        let rd0 = random_unit_disk(rng);
        proof {
            lemma_fx_mul_bound(rd0.x@, self.lens_radius@, 16 * SCALE as int, SCALE as int);
            lemma_fx_mul_bound(rd0.y@, self.lens_radius@, 16 * SCALE as int, SCALE as int);
            assert(16 * (SCALE as int) * (SCALE as int) / (SCALE as int) == 16 * (SCALE as int));
            crate::fixed::lemma_fx_mul_zero(rd0.x@);
            crate::fixed::lemma_fx_mul_zero(rd0.y@);
        }
        let rdx = rd0.x.mul(self.lens_radius);
        let rdy = rd0.y.mul(self.lens_radius);
        proof {
            lemma_fx_mul_bound(self.u.x@, rdx@, 2 * SCALE as int, 16 * SCALE as int);
            lemma_fx_mul_bound(self.u.y@, rdx@, 2 * SCALE as int, 16 * SCALE as int);
            lemma_fx_mul_bound(self.u.z@, rdx@, 2 * SCALE as int, 16 * SCALE as int);
            lemma_fx_mul_bound(self.v.x@, rdy@, 2 * SCALE as int, 16 * SCALE as int);
            lemma_fx_mul_bound(self.v.y@, rdy@, 2 * SCALE as int, 16 * SCALE as int);
            lemma_fx_mul_bound(self.v.z@, rdy@, 2 * SCALE as int, 16 * SCALE as int);
            assert(2 * (SCALE as int) * (16 * (SCALE as int)) / (SCALE as int) == 32 * (
            SCALE as int)) by (nonlinear_arith);
            crate::fixed::lemma_fx_mul_zero(self.u.x@);
            crate::fixed::lemma_fx_mul_zero(self.u.y@);
            crate::fixed::lemma_fx_mul_zero(self.u.z@);
            crate::fixed::lemma_fx_mul_zero(self.v.x@);
            crate::fixed::lemma_fx_mul_zero(self.v.y@);
            crate::fixed::lemma_fx_mul_zero(self.v.z@);
        }
        let offset = Vec3::new(
            Fx::from_raw(self.u.x.mul(rdx).raw + self.v.x.mul(rdy).raw),
            Fx::from_raw(self.u.y.mul(rdx).raw + self.v.y.mul(rdy).raw),
            Fx::from_raw(self.u.z.mul(rdx).raw + self.v.z.mul(rdy).raw),
        );
        let origin = Vec3::new(
            Fx::from_raw(self.origin.x.raw + offset.x.raw),
            Fx::from_raw(self.origin.y.raw + offset.y.raw),
            Fx::from_raw(self.origin.z.raw + offset.z.raw),
        );
        proof {
            lemma_fx_mul_bound(self.horizontal.x@, s@, CAM_MAX as int, 2 * SCALE as int);
            lemma_fx_mul_bound(self.horizontal.y@, s@, CAM_MAX as int, 2 * SCALE as int);
            lemma_fx_mul_bound(self.horizontal.z@, s@, CAM_MAX as int, 2 * SCALE as int);
            lemma_fx_mul_bound(self.vertical.x@, t@, CAM_MAX as int, 2 * SCALE as int);
            lemma_fx_mul_bound(self.vertical.y@, t@, CAM_MAX as int, 2 * SCALE as int);
            lemma_fx_mul_bound(self.vertical.z@, t@, CAM_MAX as int, 2 * SCALE as int);
            assert((CAM_MAX as int) * (2 * (SCALE as int)) / (SCALE as int) == 2 * (
            CAM_MAX as int)) by (nonlinear_arith);
        }
        let dir = Vec3::new(
            Fx::from_raw(
                self.lower_left_corner.x.raw + self.horizontal.x.mul(s).raw + self.vertical.x.mul(
                    t,
                ).raw - origin.x.raw,
            ),
            Fx::from_raw(
                self.lower_left_corner.y.raw + self.horizontal.y.mul(s).raw + self.vertical.y.mul(
                    t,
                ).raw - origin.y.raw,
            ),
            Fx::from_raw(
                self.lower_left_corner.z.raw + self.horizontal.z.mul(s).raw + self.vertical.z.mul(
                    t,
                ).raw - origin.z.raw,
            ),
        );
        let time = rand_range(rng, self.time0, self.time1);
        proof {
            assert(in_world(origin));
            assert(in_world(dir));
        }
        Ray::new(origin, dir, time)
    }
}

/// An axis scaled by a viewport extent and the focus distance, when the
/// result stays within camera range.
fn scaled_axis(axis: &Vec3, extent: Fx, focus: Fx) -> (res: Option<Vec3>)
    requires
        v3_bounded(*axis, 2 * SCALE as int),
        mag(extent@) <= 128 * SCALE as int,
        0 <= focus@ <= WORLD_MAX as int,
    ensures
        res == scaled_axis_spec(*axis, extent@, focus@),
        res matches Some(h) ==> v3_bounded(h, CAM_MAX as int),
{
    proof {
        lemma_fx_mul_bound(axis.x@, extent@, 2 * SCALE as int, 128 * SCALE as int);
        lemma_fx_mul_bound(axis.y@, extent@, 2 * SCALE as int, 128 * SCALE as int);
        lemma_fx_mul_bound(axis.z@, extent@, 2 * SCALE as int, 128 * SCALE as int);
        assert(2 * (SCALE as int) * (128 * (SCALE as int)) / (SCALE as int) == 256 * (
        SCALE as int)) by (nonlinear_arith);
        lemma_fx_mul_bound(fx_mul(axis.x@, extent@), focus@, 256 * SCALE as int, WORLD_MAX as int);
        lemma_fx_mul_bound(fx_mul(axis.y@, extent@), focus@, 256 * SCALE as int, WORLD_MAX as int);
        lemma_fx_mul_bound(fx_mul(axis.z@, extent@), focus@, 256 * SCALE as int, WORLD_MAX as int);
    }
    let sx = axis.x.mul(extent).mul(focus);
    let sy = axis.y.mul(extent).mul(focus);
    let sz = axis.z.mul(extent).mul(focus);
    let h = Vec3::new(sx, sy, sz);
    if h.check_bounded_abs(CAM_MAX) {
        Some(h)
    } else {
        None
    }
}

} // verus!
