//! A volumetric medium of constant density inside a boundary surface.

use vstd::prelude::*;
use crate::fixed::{Fx, SCALE, fx, fx_mul, fx_div, fx_sqrt, mag};
use crate::vec3::{Vec3, dot_spec, in_world, WORLD_MAX};
use crate::ray::{Ray, at_x, at_y, at_z};
use crate::aabb::{imin, imax};
use crate::aarect::EPS_PAD;
use crate::hittable::{HitRecord, Surface, surf_hit_det};
use crate::material::{Material, Isotropic};
use crate::texture::Texture;

verus! {

/// `ln 2 * SCALE`, rounded to nearest: converts base-2 free-path samples to
/// natural ones.
pub const LN2_FX: i64 = 45426;

/// A participating medium bounded by `boundary`.  `neg_inv_density` holds
/// `-1 / density` (nonpositive); `phase` is the handle of the isotropic
/// phase-function material.
pub struct ConstantMedium {
    pub boundary: Box<Surface>,
    pub phase: usize,
    pub neg_inv_density: Fx,
}

/// A nonpositive `-1/density` within range.  (Well-formedness of the
/// boundary is carried by the surface tree's own predicate.)
pub open spec fn medium_wf(m: ConstantMedium) -> bool {
    &&& m.neg_inv_density@ <= 0
    &&& mag(m.neg_inv_density@) <= WORLD_MAX as int
}

/// The medium's intersection, given the sampled free-path distance `hd`:
/// probe the boundary for an entry and a first exit past it, clip the
/// inside segment to `[t0, t1]` and to the forward half-line, and scatter
/// at distance `hd` into the segment if `hd` does not overshoot it.
/// The reported "normal" is arbitrary (`+x`) and the face flag is forced
/// front, as the phase function ignores both.
pub open spec fn medium_hit_with(m: ConstantMedium, r: Ray, t0: int, t1: int, hd: int) -> Option<
    HitRecord,
> {
    match surf_hit_det(*m.boundary, r, -(WORLD_MAX as int), WORLD_MAX as int) {
        None => None,
        Some(rec1) => {
            let lo2 = if rec1.t@ + EPS_PAD as int <= WORLD_MAX as int {
                rec1.t@ + EPS_PAD as int
            } else {
                WORLD_MAX as int
            };
            match surf_hit_det(*m.boundary, r, lo2, WORLD_MAX as int) {
                None => None,
                Some(rec2) => {
                    let ta = imax(rec1.t@, t0);
                    let tb = imin(rec2.t@, t1);
                    if ta >= tb {
                        None
                    } else {
                        let ta2 = imax(ta, 0);
                        let len = fx_sqrt(dot_spec(r.dir, r.dir));
                        if len <= 0 {
                            None
                        } else {
                            let dist = fx_mul(tb - ta2, len);
                            if hd > dist {
                                None
                            } else {
                                let tt = ta2 + fx_div(hd, len);
                                let p = Vec3 {
                                    x: fx(at_x(r, tt)),
                                    y: fx(at_y(r, tt)),
                                    z: fx(at_z(r, tt)),
                                };
                                if in_world(p) && mag(tt) <= WORLD_MAX as int {
                                    Some(
                                        HitRecord {
                                            point: p,
                                            normal: Vec3 {
                                                x: fx(SCALE as int),
                                                y: fx(0),
                                                z: fx(0),
                                            },
                                            t: fx(tt),
                                            u: fx(0),
                                            v: fx(0),
                                            front_face: true,
                                            mat: m.phase,
                                        },
                                    )
                                } else {
                                    None
                                }
                            }
                        }
                    }
                }
            }
        },
    }
}

impl ConstantMedium {
    /// Builds a medium from a boundary, `-1/density` and the phase
    /// material's handle.
    pub fn new(boundary: Box<Surface>, neg_inv_density: Fx, phase: usize) -> (m: ConstantMedium)
        ensures
            m.boundary == boundary,
            m.neg_inv_density == neg_inv_density,
            m.phase == phase,
    {
        ConstantMedium { boundary, phase, neg_inv_density }
    }

    /// Builds a medium whose phase function is an isotropic texture: the
    /// phase material is appended to the scene's material arena and the
    /// medium holds its handle.
    pub fn from_texture(
        boundary: Box<Surface>,
        neg_inv_density: Fx,
        a: Texture,
        mats: &mut Vec<Material>,
    ) -> (m: ConstantMedium)
        ensures
            final(mats)@ == old(mats)@.push(Material::Isotropic(Isotropic { albedo: a })),
            m.boundary == boundary,
            m.neg_inv_density == neg_inv_density,
            m.phase == old(mats)@.len(),
    {
        let phase = mats.len();
        mats.push(Material::Isotropic(Isotropic::from_texture(a)));
        ConstantMedium { boundary, phase, neg_inv_density }
    }

    /// Builds a medium whose phase function is an isotropic solid color,
    /// appended to the scene's material arena.
    pub fn from_color(
        boundary: Box<Surface>,
        neg_inv_density: Fx,
        c: crate::vec3::Color,
        mats: &mut Vec<Material>,
    ) -> (m: ConstantMedium)
        ensures
            final(mats)@ == old(mats)@.push(
                Material::Isotropic(
                    Isotropic {
                        albedo: Texture::SolidColor(
                            crate::texture::SolidColor { color_value: c },
                        ),
                    },
                ),
            ),
            m.boundary == boundary,
            m.neg_inv_density == neg_inv_density,
            m.phase == old(mats)@.len(),
    {
        let phase = mats.len();
        mats.push(Material::Isotropic(Isotropic::from_color(c)));
        ConstantMedium { boundary, phase, neg_inv_density }
    }
}

} // verus!
