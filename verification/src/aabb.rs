//! Axis-aligned bounding boxes with a slab intersection test.

use vstd::prelude::*;
use crate::fixed::{Fx, SCALE, fx_div, mag, rtz, lemma_rtz_mag, lemma_rtz_monotone};
use crate::ray::{Ray, ray_wf};
use crate::vec3::{Point3, v3_bounded, DOT_ARG_MAX};

verus! {

/// An axis-aligned box given by two corner points.  Degenerate
/// (zero-thickness) boxes are allowed; planar surfaces pad their boxes by an
/// epsilon so a box always has usable slabs.
#[derive(Clone, Copy, PartialEq, Eq, Structural, Debug)]
pub struct Aabb {
    pub max: Point3,
    pub min: Point3,
}

/// Smaller of two integers.
pub open spec fn imin(a: int, b: int) -> int {
    if a <= b {
        a
    } else {
        b
    }
}

/// Larger of two integers.
pub open spec fn imax(a: int, b: int) -> int {
    if a >= b {
        a
    } else {
        b
    }
}

/// Lower end of the parameter interval in which the ray is inside the slab
/// `mn <= o + t * d <= mx` (for `d != 0`).
pub open spec fn slab_lo(o: int, d: int, mn: int, mx: int) -> int {
    imin(fx_div(mn - o, d), fx_div(mx - o, d))
}

/// Upper end of that interval.
pub open spec fn slab_hi(o: int, d: int, mn: int, mx: int) -> int {
    imax(fx_div(mn - o, d), fx_div(mx - o, d))
}

/// One axis of the slab test: the running interval, cut down by this
/// axis's slab, or none the moment it empties.  A ray parallel to the slab
/// leaves the interval untouched when its origin lies within the slab and
/// misses otherwise.
pub open spec fn axis_step(o: int, d: int, mn: int, mx: int, t0: int, t1: int) -> Option<
    (int, int),
> {
    if d == 0 {
        if mn <= o <= mx {
            Some((t0, t1))
        } else {
            None
        }
    } else {
        let nt0 = imax(t0, slab_lo(o, d, mn, mx));
        let nt1 = imin(t1, slab_hi(o, d, mn, mx));
        if nt1 > nt0 {
            Some((nt0, nt1))
        } else {
            None
        }
    }
}

/// The whole slab test: the interval `[t0, t1]` is narrowed by each axis's
/// slab in turn and the ray passes exactly when it never empties.
pub open spec fn aabb_hit_spec(bx: Aabb, r: Ray, t0: int, t1: int) -> bool {
    match axis_step(r.origin.x@, r.dir.x@, bx.min.x@, bx.max.x@, t0, t1) {
        None => false,
        Some(ix) => match axis_step(r.origin.y@, r.dir.y@, bx.min.y@, bx.max.y@, ix.0, ix.1) {
            None => false,
            Some(iy) => axis_step(
                r.origin.z@,
                r.dir.z@,
                bx.min.z@,
                bx.max.z@,
                iy.0,
                iy.1,
            ) is Some,
        },
    }
}

/// The componentwise union of two boxes: minimum of minima, maximum of
/// maxima.
pub open spec fn union_box(a: Aabb, b: Aabb) -> Aabb {
    Aabb {
        min: crate::vec3::Vec3 {
            x: crate::fixed::fx(imin(a.min.x@, b.min.x@)),
            y: crate::fixed::fx(imin(a.min.y@, b.min.y@)),
            z: crate::fixed::fx(imin(a.min.z@, b.min.z@)),
        },
        max: crate::vec3::Vec3 {
            x: crate::fixed::fx(imax(a.max.x@, b.max.x@)),
            y: crate::fixed::fx(imax(a.max.y@, b.max.y@)),
            z: crate::fixed::fx(imax(a.max.z@, b.max.z@)),
        },
    }
}

/// `outer` covers `inner` componentwise.
pub open spec fn box_contains(outer: Aabb, inner: Aabb) -> bool {
    &&& outer.min.x@ <= inner.min.x@ && inner.max.x@ <= outer.max.x@
    &&& outer.min.y@ <= inner.min.y@ && inner.max.y@ <= outer.max.y@
    &&& outer.min.z@ <= inner.min.z@ && inner.max.z@ <= outer.max.z@
}

/// Raw bound kept by every bounding box the library builds: somewhat wider
/// than the world bound, since unions, shifts and rotations of boxes may
/// stick out of it.
pub const BOX_MAX: i64 = 0x4_0000_0000;

/// Corners within the box bound.
pub open spec fn aabb_bounded(bx: Aabb) -> bool {
    &&& v3_bounded(bx.min, BOX_MAX as int)
    &&& v3_bounded(bx.max, BOX_MAX as int)
}

impl Aabb {
    /// Runtime test of `aabb_bounded`.
    pub fn check_bounded(&self) -> (b: bool)
        ensures
            b == aabb_bounded(*self),
    {
        self.min.x.raw <= BOX_MAX && self.min.x.raw >= -BOX_MAX && self.min.y.raw <= BOX_MAX
            && self.min.y.raw >= -BOX_MAX && self.min.z.raw <= BOX_MAX && self.min.z.raw
            >= -BOX_MAX && self.max.x.raw <= BOX_MAX && self.max.x.raw >= -BOX_MAX
            && self.max.y.raw <= BOX_MAX && self.max.y.raw >= -BOX_MAX && self.max.z.raw
            <= BOX_MAX && self.max.z.raw >= -BOX_MAX
    }
}

/// The corners are in order: `min` at most `max`, componentwise.
pub open spec fn aabb_ordered(bx: Aabb) -> bool {
    &&& bx.min.x@ <= bx.max.x@
    &&& bx.min.y@ <= bx.max.y@
    &&& bx.min.z@ <= bx.max.z@
}

/// Box corners small enough for the slab arithmetic.
pub open spec fn aabb_wf(bx: Aabb) -> bool {
    &&& v3_bounded(bx.min, DOT_ARG_MAX as int)
    &&& v3_bounded(bx.max, DOT_ARG_MAX as int)
}

/// A fixed-point quotient is never larger in magnitude than its scaled
/// numerator, so the slab endpoints always fit in an `i64`.
proof fn lemma_fx_div_fits(n: int, d: int)
    requires
        d != 0,
        mag(n) <= 0x80_0000_0000,
    ensures
        mag(fx_div(n, d)) <= 0x80_0000_0000 * (SCALE as int),
{
    lemma_rtz_mag(n * (SCALE as int), mag(d));
    assert(rtz(n * (SCALE as int), d) == if (n * (SCALE as int) >= 0) == (d >= 0) {
        mag(n * (SCALE as int)) / mag(d)
    } else {
        -(mag(n * (SCALE as int)) / mag(d))
    });
    assert(mag(n * (SCALE as int)) == mag(n) * (SCALE as int)) by (nonlinear_arith);
    vstd::arithmetic::div_mod::lemma_div_is_ordered_by_denominator(
        mag(n) * (SCALE as int),
        1,
        mag(d),
    );
    assert(mag(n) * (SCALE as int) <= 0x80_0000_0000 * (SCALE as int)) by (nonlinear_arith)
        requires
            mag(n) <= 0x80_0000_0000;
}

/// One exec axis step; mirrors `axis_step` exactly.
fn axis_clip(o: Fx, d: Fx, mn: Fx, mx: Fx, t0: Fx, t1: Fx) -> (res: Option<(Fx, Fx)>)
    requires
        mag(o@) <= DOT_ARG_MAX as int,
        mag(d@) <= DOT_ARG_MAX as int,
        mag(mn@) <= DOT_ARG_MAX as int,
        mag(mx@) <= DOT_ARG_MAX as int,
    ensures
        match res {
            Some(iv) => axis_step(o@, d@, mn@, mx@, t0@, t1@) == Some((iv.0@, iv.1@)),
            None => axis_step(o@, d@, mn@, mx@, t0@, t1@) is None,
        },
{
    if d.raw == 0 {
        if mn.le(o) && o.le(mx) {
            Some((t0, t1))
        } else {
            None
        }
    } else {
        proof {
            lemma_fx_div_fits(mn@ - o@, d@);
            lemma_fx_div_fits(mx@ - o@, d@);
        }
        let a = mn.sub(o).div(d);
        let b = mx.sub(o).div(d);
        let lo = a.min(b);
        let hi = a.max(b);
        let nt0 = t0.max(lo);
        let nt1 = t1.min(hi);
        if nt0.lt(nt1) {
            Some((nt0, nt1))
        } else {
            None
        }
    }
}

impl Aabb {
    /// Builds a box from two corner points (`a` becomes `min`, `b` `max`).
    pub fn new(a: Point3, b: Point3) -> (r: Aabb)
        ensures
            r.min == a,
            r.max == b,
    {
        Aabb { max: b, min: a }
    }

    /// Slab test: the interval `[t_min, t_max]` is intersected with each
    /// axis's slab interval in turn, and the ray passes exactly when the
    /// running interval never empties.
    pub fn hit(&self, r: &Ray, t_min: Fx, t_max: Fx) -> (pass: bool)
        requires
            ray_wf(*r),
            aabb_wf(*self),
        ensures
            pass == aabb_hit_spec(*self, *r, t_min@, t_max@),
    {
        let ix = match axis_clip(r.origin.x, r.dir.x, self.min.x, self.max.x, t_min, t_max) {
            Some(iv) => iv,
            None => {
                return false;
            },
        };
        let iy = match axis_clip(r.origin.y, r.dir.y, self.min.y, self.max.y, ix.0, ix.1) {
            Some(iv) => iv,
            None => {
                return false;
            },
        };
        match axis_clip(r.origin.z, r.dir.z, self.min.z, self.max.z, iy.0, iy.1) {
            Some(_) => true,
            None => false,
        }
    }

    /// Smallest box covering both arguments: the componentwise minimum of the
    /// `min` corners and maximum of the `max` corners.  The result contains
    /// each input as a sub-region.
    pub fn surrounding_box(box0: &Aabb, box1: &Aabb) -> (r: Aabb)
        ensures
            r == union_box(*box0, *box1),
            box_contains(r, *box0),
            box_contains(r, *box1),
            r.min.x@ == imin(box0.min.x@, box1.min.x@),
            r.min.y@ == imin(box0.min.y@, box1.min.y@),
            r.min.z@ == imin(box0.min.z@, box1.min.z@),
            r.max.x@ == imax(box0.max.x@, box1.max.x@),
            r.max.y@ == imax(box0.max.y@, box1.max.y@),
            r.max.z@ == imax(box0.max.z@, box1.max.z@),
            aabb_wf(*box0) && aabb_wf(*box1) ==> aabb_wf(r),
    {
        let small = Point3::new(
            box0.min.x.min(box1.min.x),
            box0.min.y.min(box1.min.y),
            box0.min.z.min(box1.min.z),
        );
        let big = Point3::new(
            box0.max.x.max(box1.max.x),
            box0.max.y.max(box1.max.y),
            box0.max.z.max(box1.max.z),
        );
        Aabb::new(small, big)
    }
}

/// Quotients by a positive divisor preserve order of numerators; by a
/// negative divisor they reverse it.
proof fn lemma_fx_div_ordered(n1: int, n2: int, d: int)
    requires
        d != 0,
        n1 <= n2,
    ensures
        d > 0 ==> fx_div(n1, d) <= fx_div(n2, d),
        d < 0 ==> fx_div(n2, d) <= fx_div(n1, d),
{
    assert(n1 * (SCALE as int) <= n2 * (SCALE as int)) by (nonlinear_arith)
        requires
            n1 <= n2;
    if d > 0 {
        lemma_rtz_monotone(n1 * (SCALE as int), n2 * (SCALE as int), d);
    } else {
        lemma_rtz_monotone(n1 * (SCALE as int), n2 * (SCALE as int), -d);
        assert(rtz(n1 * (SCALE as int), d) == -rtz(n1 * (SCALE as int), -d));
        assert(rtz(n2 * (SCALE as int), d) == -rtz(n2 * (SCALE as int), -d));
    }
}

/// Growing the slab and widening the incoming interval can only widen the
/// clipped interval: a passing step keeps passing, with a wider result.
proof fn lemma_axis_step_monotone(
    o: int,
    d: int,
    mn1: int,
    mx1: int,
    mn2: int,
    mx2: int,
    t0i: int,
    t1i: int,
    t0o: int,
    t1o: int,
)
    requires
        mn2 <= mn1 <= mx1 <= mx2,
        t0o <= t0i,
        t1i <= t1o,
        axis_step(o, d, mn1, mx1, t0i, t1i) is Some,
    ensures
        axis_step(o, d, mn2, mx2, t0o, t1o) matches Some(iv) && iv.0
            <= axis_step(o, d, mn1, mx1, t0i, t1i).unwrap().0 && axis_step(
            o,
            d,
            mn1,
            mx1,
            t0i,
            t1i,
        ).unwrap().1 <= iv.1,
{
    if d != 0 {
        lemma_fx_div_ordered(mn2 - o, mn1 - o, d);
        lemma_fx_div_ordered(mx1 - o, mx2 - o, d);
        lemma_fx_div_ordered(mn1 - o, mx1 - o, d);
        lemma_fx_div_ordered(mn2 - o, mx2 - o, d);
        assert(slab_lo(o, d, mn2, mx2) <= slab_lo(o, d, mn1, mx1));
        assert(slab_hi(o, d, mn1, mx1) <= slab_hi(o, d, mn2, mx2));
    }
}

/// A ray that hits a box also hits every box containing it — the soundness
/// of bounding-volume pruning.
pub proof fn lemma_aabb_hit_monotone(inner: Aabb, outer: Aabb, r: Ray, t0: int, t1: int)
    requires
        box_contains(outer, inner),
        aabb_ordered(inner),
        aabb_hit_spec(inner, r, t0, t1),
    ensures
        aabb_hit_spec(outer, r, t0, t1),
{
    let ix = axis_step(r.origin.x@, r.dir.x@, inner.min.x@, inner.max.x@, t0, t1).unwrap();
    lemma_axis_step_monotone(
        r.origin.x@, r.dir.x@, inner.min.x@, inner.max.x@, outer.min.x@, outer.max.x@,
        t0, t1, t0, t1,
    );
    let ox = axis_step(r.origin.x@, r.dir.x@, outer.min.x@, outer.max.x@, t0, t1).unwrap();
    let iy = axis_step(r.origin.y@, r.dir.y@, inner.min.y@, inner.max.y@, ix.0, ix.1).unwrap();
    lemma_axis_step_monotone(
        r.origin.y@, r.dir.y@, inner.min.y@, inner.max.y@, outer.min.y@, outer.max.y@,
        ix.0, ix.1, ox.0, ox.1,
    );
    let oy = axis_step(r.origin.y@, r.dir.y@, outer.min.y@, outer.max.y@, ox.0, ox.1).unwrap();
    lemma_axis_step_monotone(
        r.origin.z@, r.dir.z@, inner.min.z@, inner.max.z@, outer.min.z@, outer.max.z@,
        iy.0, iy.1, oy.0, oy.1,
    );
}

} // verus!
