//! An ordered collection of top-level surfaces, scanned linearly for the
//! nearest hit; also the home of the recursive radiance integrator.

use vstd::prelude::*;
use crate::fixed::{Fx, SCALE, fx, fx_mul, fx_sqrt, rtz, mag, lemma_fx_mul_bound, lemma_fx_div_fits};
use crate::vec3::{Color, Vec3, dot_spec, in_world, WORLD_MAX};
use crate::ray::{Ray, ray_wf};
use crate::aabb::Aabb;
use crate::hittable::{HitRecord, Surface, surf_wf, surf_hit_det, surf_bbox_spec, has_medium, rec_wf};
use crate::material::{Material, mat_wf, emitted_spec};
use crate::texture::color_ok;

verus! {

/// What a ray that escapes the scene contributes: a fixed background
/// color, or the white-to-blue sky gradient — a per-scene configuration
/// choice.
pub enum Environment {
    Solid(Color),
    SkyGradient,
}

/// A solid background stays within world range and is never negative.
pub open spec fn env_wf(e: Environment) -> bool {
    match e {
        Environment::Solid(c) => in_world(c) && 0 <= c.x@ && 0 <= c.y@ && 0 <= c.z@,
        Environment::SkyGradient => true,
    }
}

/// One channel of the sky gradient: `(1 - t) * 1 + t * b`, clamped into
/// the world color range.
pub open spec fn sky_channel(t: int, b: int) -> int {
    let v = fx_mul(SCALE as int - t, SCALE as int) + fx_mul(t, b);
    if v < 0 {
        0
    } else if v > WORLD_MAX as int {
        WORLD_MAX as int
    } else {
        v
    }
}

/// The sky gradient: white blended toward blue by the normalized upward
/// component of the direction.  A direction of zero fixed-point length
/// answers plain white.
pub open spec fn sky_spec(r: Ray) -> Color {
    if fx_sqrt(dot_spec(r.dir, r.dir)) <= 0 {
        Color { x: fx(SCALE as int), y: fx(SCALE as int), z: fx(SCALE as int) }
    } else {
        let uy = crate::vec3_ops::unit_spec(r.dir).y@;
        let t = rtz(uy + SCALE as int, 2);
        Color {
            x: fx(sky_channel(t, 32768)),
            y: fx(sky_channel(t, 45875)),
            z: fx(sky_channel(t, SCALE as int)),
        }
    }
}

/// The environment's radiance for an escaping ray.
pub open spec fn env_color_spec(e: Environment, r: Ray) -> Color {
    match e {
        Environment::Solid(c) => c,
        Environment::SkyGradient => sky_spec(r),
    }
}

/// One channel of the integrator's combination step: attenuation times the
/// recursive radiance, plus the emission, clamped into world range.
pub open spec fn combine_channel(att: int, rc: int, em: int) -> int {
    let v = fx_mul(att, rc) + em;
    if v < -(WORLD_MAX as int) {
        -(WORLD_MAX as int)
    } else if v > WORLD_MAX as int {
        WORLD_MAX as int
    } else {
        v
    }
}

/// The combination step over all three channels.
pub open spec fn combine_spec(att: Color, rc: Color, em: Color) -> Color {
    Color {
        x: fx(combine_channel(att.x@, rc.x@, em.x@)),
        y: fx(combine_channel(att.y@, rc.y@, em.y@)),
        z: fx(combine_channel(att.z@, rc.z@, em.z@)),
    }
}

/// Every material in the arena is well formed.
pub open spec fn mats_wf(mats: Seq<Material>) -> bool {
    forall|i: int| 0 <= i < mats.len() ==> mat_wf(#[trigger] mats[i])
}

/// Raw lower bound of the intersection search: a small epsilon that keeps
/// a scattered ray from re-hitting its own origin.
pub const SHADOW_EPS: i64 = 66;

/// The exec environment radiance.
pub fn env_color(e: &Environment, r: &Ray) -> (c: Color)
    requires
        env_wf(*e),
        ray_wf(*r),
    ensures
        c == env_color_spec(*e, *r),
        color_ok(c),
{
    match e {
        Environment::Solid(c) => *c,
        Environment::SkyGradient => {
            let len = r.dir.modulus();
            if len.raw <= 0 {
                Vec3::new(Fx::one(), Fx::one(), Fx::one())
            } else {
                proof {
                    lemma_fx_div_fits(r.dir.y@, len@, WORLD_MAX as int);
                }
                let uy = r.dir.y.div(len);
                let t = Fx::from_raw(uy.raw + SCALE).halve();
                let cx = sky_channel_exec(t, Fx::from_raw(32768));
                let cy = sky_channel_exec(t, Fx::from_raw(45875));
                let cz = sky_channel_exec(t, Fx::one());
                Vec3::new(cx, cy, cz)
            }
        },
    }
}

/// One exec combination channel.
fn combine_channel_exec(att: Fx, rc: Fx, em: Fx) -> (c: Fx)
    requires
        mag(att@) <= WORLD_MAX as int,
        mag(rc@) <= WORLD_MAX as int,
        mag(em@) <= WORLD_MAX as int,
    ensures
        c@ == combine_channel(att@, rc@, em@),
        mag(c@) <= WORLD_MAX as int,
        att@ >= 0 && rc@ >= 0 && em@ >= 0 ==> c@ >= 0,
{
    proof {
        lemma_fx_mul_bound(att@, rc@, WORLD_MAX as int, WORLD_MAX as int);
        crate::fixed::lemma_fx_mul_signs(att@, rc@);
    }
    let v = Fx::from_raw(att.mul(rc).raw + em.raw);
    if v.raw < -WORLD_MAX {
        Fx::from_raw(-WORLD_MAX)
    } else if v.raw > WORLD_MAX {
        Fx::from_raw(WORLD_MAX)
    } else {
        v
    }
}

/// One exec sky channel.
fn sky_channel_exec(t: Fx, b: Fx) -> (c: Fx)
    requires
        mag(t@) <= 0x1_0000_0000_0000,
        0 <= b@ <= SCALE as int,
    ensures
        c@ == sky_channel(t@, b@),
        0 <= c@ <= WORLD_MAX as int,
{
    proof {
        lemma_fx_mul_bound(SCALE as int - t@, SCALE as int, 0x1_0001_0000_0000, SCALE as int);
        lemma_fx_mul_bound(t@, b@, 0x1_0000_0000_0000, SCALE as int);
    }
    let a = Fx::from_raw(SCALE - t.raw).mul(Fx::one());
    let bb = t.mul(b);
    let v = Fx::from_raw(a.raw + bb.raw);
    if v.raw < 0 {
        Fx::zero()
    } else if v.raw > WORLD_MAX {
        Fx::from_raw(WORLD_MAX)
    } else {
        v
    }
}

/// The scene's top-level surface list.
pub struct HittableList {
    pub objects: Vec<Surface>,
}

/// Every surface in the list is well formed.
pub open spec fn list_wf(objs: Seq<Surface>) -> bool {
    forall|i: int| 0 <= i < objs.len() ==> surf_wf(#[trigger] objs[i])
}

/// No surface in the list holds a volumetric medium.
pub open spec fn list_no_medium(objs: Seq<Surface>) -> bool {
    forall|i: int| 0 <= i < objs.len() ==> !has_medium(#[trigger] objs[i])
}

/// The nearest-hit scan from index `i` on: each object is probed with the
/// running nearest parameter as upper bound, and a hit replaces the best
/// found so far.
pub open spec fn scan_hit(
    objs: Seq<Surface>,
    i: int,
    r: Ray,
    t0: int,
    cur: int,
    best: Option<HitRecord>,
) -> Option<HitRecord>
    decreases objs.len() - i,
{
    if i < 0 || i >= objs.len() {
        best
    } else {
        match surf_hit_det(objs[i], r, t0, cur) {
            Some(rec) => scan_hit(objs, i + 1, r, t0, rec.t@, Some(rec)),
            None => scan_hit(objs, i + 1, r, t0, cur, best),
        }
    }
}

/// The running union of member boxes from index `i` on: none the moment a
/// member has no box.
pub open spec fn bbox_fold(
    objs: Seq<Surface>,
    i: int,
    acc: Option<Aabb>,
    t0: int,
    t1: int,
) -> Option<Aabb>
    decreases objs.len() - i,
{
    if i < 0 || i >= objs.len() {
        acc
    } else {
        match surf_bbox_spec(objs[i], t0, t1) {
            None => None,
            Some(b) => bbox_fold(
                objs,
                i + 1,
                match acc {
                    None => Some(b),
                    Some(prev) => Some(crate::aabb::union_box(prev, b)),
                },
                t0,
                t1,
            ),
        }
    }
}

/// The box of a whole list: the iterated union of the members' boxes, or
/// none for an empty list or any member without a box.
pub open spec fn list_bbox_spec(objs: Seq<Surface>, t0: int, t1: int) -> Option<Aabb> {
    if objs.len() == 0 {
        None
    } else {
        bbox_fold(objs, 0, None, t0, t1)
    }
}

/// The nearest hit of the whole list over `(t0, t1]`.
pub open spec fn list_hit_det(objs: Seq<Surface>, r: Ray, t0: int, t1: int) -> Option<
    HitRecord,
> {
    scan_hit(objs, 0, r, t0, t1, None)
}

impl HittableList {
    /// An empty scene.
    pub fn new() -> (l: HittableList)
        ensures
            l.objects@.len() == 0,
    {
        HittableList { objects: Vec::new() }
    }

    /// Appends a surface.
    pub fn push(&mut self, object: Surface)
        ensures
            final(self).objects@ == old(self).objects@.push(object),
    {
        self.objects.push(object);
    }

    /// Nearest intersection in `(t_min, t_max]` over all surfaces, by
    /// linear scan with a tightening upper bound.
    pub fn hit(
        &self,
        r: &Ray,
        t_min: Fx,
        t_max: Fx,
        rng: &mut rand::rngs::ThreadRng,
    ) -> (res: Option<HitRecord>)
        requires
            ray_wf(*r),
            list_wf(self.objects@),
            mag(t_min@) <= WORLD_MAX as int,
            mag(t_max@) <= WORLD_MAX as int,
        ensures
            list_no_medium(self.objects@) ==> res == list_hit_det(
                self.objects@,
                *r,
                t_min@,
                t_max@,
            ),
            res matches Some(rec) ==> rec_wf(rec),
    {
        let ghost objs = self.objects@;
        let mut best: Option<HitRecord> = None;
        let mut bound: Fx = t_max;
        let mut i: usize = 0;
        while i < self.objects.len()
            invariant
                ray_wf(*r),
                list_wf(objs),
                objs == self.objects@,
                0 <= i <= objs.len(),
                mag(t_min@) <= WORLD_MAX as int,
                mag(bound@) <= WORLD_MAX as int,
                best matches Some(rec) ==> rec_wf(rec),
                list_no_medium(objs) ==> list_hit_det(objs, *r, t_min@, t_max@) == scan_hit(
                    objs,
                    i as int,
                    *r,
                    t_min@,
                    bound@,
                    best,
                ),
            decreases objs.len() - i,
        {
            let stepped = self.objects[i].hit(r, t_min, bound, rng);
            if let Some(rec) = stepped {
                best = Some(rec);
                bound = rec.t;
            }
            i = i + 1;
        }
        best
    }

    /// The recursive radiance estimator.  At depth zero the answer is
    /// black; a miss answers the environment radiance; an absorbing
    /// material answers its emission alone; otherwise the scattered ray is
    /// followed and its radiance, attenuated, is added to the emission
    /// (clamped into world range).  For a scene without volumetric media
    /// the miss case and the pure-emission case are pinned down exactly.
    pub fn ray_color(
        &self,
        r: &Ray,
        env: &Environment,
        depth: usize,
        mats: &Vec<Material>,
        rng: &mut rand::rngs::ThreadRng,
    ) -> (c: Color)
        requires
            list_wf(self.objects@),
            mats_wf(mats@),
            ray_wf(*r),
            env_wf(*env),
        ensures
            color_ok(c),
            depth == 0 ==> c.x@ == 0 && c.y@ == 0 && c.z@ == 0,
            (depth > 0 && list_no_medium(self.objects@)) ==> match list_hit_det(
                self.objects@,
                *r,
                SHADOW_EPS as int,
                WORLD_MAX as int,
            ) {
                None => c == env_color_spec(*env, *r),
                Some(rec) => {
                    &&& rec.mat >= mats@.len() ==> c.x@ == 0 && c.y@ == 0 && c.z@ == 0
                    &&& (rec.mat < mats@.len() && mats@[rec.mat as int] matches
                        Material::DiffuseLight(_)) ==> c == emitted_spec(
                        mats@[rec.mat as int],
                        rec.u@,
                        rec.v@,
                        rec.point,
                    )
                    &&& rec.mat < mats@.len() ==> (c == emitted_spec(
                        mats@[rec.mat as int],
                        rec.u@,
                        rec.v@,
                        rec.point,
                    ) || exists|att: Color, sub: Color|
                        color_ok(att) && color_ok(sub) && c == combine_spec(
                            att,
                            sub,
                            emitted_spec(mats@[rec.mat as int], rec.u@, rec.v@, rec.point),
                        ))
                },
            },
        decreases depth,
    {
        if depth == 0 {
            return Vec3::zero();
        }
        let res = self.hit(r, Fx::from_raw(SHADOW_EPS), Fx::from_raw(WORLD_MAX), rng);
        let rec = match res {
            None => {
                return env_color(env, r);
            },
            Some(rec) => rec,
        };
        if rec.mat >= mats.len() {
            return Vec3::zero();
        }
        let m = &mats[rec.mat];
        let emitted = m.emitted(rec.u, rec.v, &rec.point);
        match m.scatter(r, &rec, rng) {
            None => emitted,
            Some(pair) => {
                let rc = self.ray_color(&pair.1, env, depth - 1, mats, rng);
                proof {
                    lemma_fx_mul_bound(pair.0.x@, rc.x@, WORLD_MAX as int, WORLD_MAX as int);
                    lemma_fx_mul_bound(pair.0.y@, rc.y@, WORLD_MAX as int, WORLD_MAX as int);
                    lemma_fx_mul_bound(pair.0.z@, rc.z@, WORLD_MAX as int, WORLD_MAX as int);
                }
                let cx = combine_channel_exec(pair.0.x, rc.x, emitted.x);
                let cy = combine_channel_exec(pair.0.y, rc.y, emitted.y);
                let cz = combine_channel_exec(pair.0.z, rc.z, emitted.z);
                let out = Vec3::new(cx, cy, cz);
                proof {
                    assert(color_ok(pair.0) && color_ok(rc) && out == combine_spec(
                        pair.0,
                        rc,
                        emitted,
                    ));
                }
                out
            },
        }
    }

    /// The union of all surfaces' boxes over the shutter interval, or none
    /// if the list is empty or some surface has no box.
    pub fn bounding_box(&self, time0: Fx, time1: Fx) -> (res: Option<Aabb>)
        requires
            list_wf(self.objects@),
            mag(time0@) <= WORLD_MAX as int,
            mag(time1@) <= WORLD_MAX as int,
        ensures
            res == list_bbox_spec(self.objects@, time0@, time1@),
            res matches Some(bx) ==> crate::aabb::aabb_wf(bx) && crate::aabb::aabb_ordered(bx)
                && crate::aabb::aabb_bounded(bx),
            self.objects@.len() == 0 ==> res is None,
    {
        if self.objects.len() == 0 {
            return None;
        }
        let mut acc: Option<Aabb> = None;
        let mut i: usize = 0;
        while i < self.objects.len()
            invariant
                list_wf(self.objects@),
                0 <= i <= self.objects@.len(),
                self.objects@.len() > 0,
                mag(time0@) <= WORLD_MAX as int,
                mag(time1@) <= WORLD_MAX as int,
                i > 0 ==> acc is Some,
                acc matches Some(bx) ==> crate::aabb::aabb_wf(bx) && crate::aabb::aabb_ordered(bx)
                    && crate::aabb::aabb_bounded(bx),
                list_bbox_spec(self.objects@, time0@, time1@) == bbox_fold(
                    self.objects@,
                    i as int,
                    acc,
                    time0@,
                    time1@,
                ),
            decreases self.objects@.len() - i,
        {
            match self.objects[i].bounding_box(time0, time1) {
                None => {
                    return None;
                },
                Some(b) => {
                    acc = match acc {
                        None => Some(b),
                        Some(prev) => Some(Aabb::surrounding_box(&prev, &b)),
                    };
                },
            }
            i = i + 1;
        }
        acc
    }
}

} // verus!
