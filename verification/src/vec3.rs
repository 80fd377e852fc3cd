//! Three-component fixed-point vectors: points, directions and colors.

use vstd::prelude::*;
use crate::fixed::{
    Fx, SCALE, fx_mul, fx_sqrt, mag, lemma_fx_mul_bound, lemma_sqrt_exists,
};


verus! {

/// A vector of three fixed-point scalars.  Also used for points and for
/// colors (whose components then hold channel intensities).
#[derive(Clone, Copy, PartialEq, Eq, Structural, Debug)]
pub struct Vec3 {
    pub x: Fx,
    pub y: Fx,
    pub z: Fx,
}

/// A color; components are channel intensities, 1 meaning full brightness.
pub type Color = Vec3;

/// A point in world space.
pub type Point3 = Vec3;

/// All three raw components have magnitude at most `b`.
pub open spec fn v3_bounded(v: Vec3, b: int) -> bool {
    &&& mag(v.x@) <= b
    &&& mag(v.y@) <= b
    &&& mag(v.z@) <= b
}

/// Raw value of the dot product of two vectors.
pub open spec fn dot_spec(a: Vec3, b: Vec3) -> int {
    fx_mul(a.x@, b.x@) + fx_mul(a.y@, b.y@) + fx_mul(a.z@, b.z@)
}

/// Componentwise bound under which the dot product provably fits in `i64`.
pub const DOT_ARG_MAX: i64 = 0x40_0000_0000;

/// Componentwise bound under which sums and differences fit in `i64`.
pub const ADD_ARG_MAX: i64 = 0x3fff_ffff_ffff_ffff;

/// Raw bound on world coordinates: scene geometry, ray origins, directions
/// and parameter bounds stay within `2^14` world units, which keeps every
/// intersection computation within `i64` range.
pub const WORLD_MAX: i64 = 0x4000_0000;

/// The vector's components lie within the world coordinate bound.
pub open spec fn in_world(v: Vec3) -> bool {
    v3_bounded(v, WORLD_MAX as int)
}

proof fn lemma_dot_fits(a: Vec3, b: Vec3)
    requires
        v3_bounded(a, DOT_ARG_MAX as int),
        v3_bounded(b, DOT_ARG_MAX as int),
    ensures
        mag(fx_mul(a.x@, b.x@)) <= 0x1000_0000_0000_0000,
        mag(fx_mul(a.y@, b.y@)) <= 0x1000_0000_0000_0000,
        mag(fx_mul(a.z@, b.z@)) <= 0x1000_0000_0000_0000,
        mag(dot_spec(a, b)) <= 0x3000_0000_0000_0000,
{
    let bb = DOT_ARG_MAX as int;
    lemma_fx_mul_bound(a.x@, b.x@, bb, bb);
    lemma_fx_mul_bound(a.y@, b.y@, bb, bb);
    lemma_fx_mul_bound(a.z@, b.z@, bb, bb);
    assert(bb * bb / (SCALE as int) == 0x1000_0000_0000_0000);
}

impl Vec3 {
    /// Builds a vector from its components.
    pub fn new(x: Fx, y: Fx, z: Fx) -> (r: Vec3)
        ensures
            r == (Vec3 { x, y, z }),
    {
        Vec3 { x, y, z }
    }

    /// The zero vector.
    pub fn zero() -> (r: Vec3)
        ensures
            r.x@ == 0 && r.y@ == 0 && r.z@ == 0,
    {
        Vec3 { x: Fx::zero(), y: Fx::zero(), z: Fx::zero() }
    }

    /// Componentwise sum.
    pub fn add(self, o: Vec3) -> (r: Vec3)
        requires
            v3_bounded(self, ADD_ARG_MAX as int),
            v3_bounded(o, ADD_ARG_MAX as int),
        ensures
            r.x@ == self.x@ + o.x@,
            r.y@ == self.y@ + o.y@,
            r.z@ == self.z@ + o.z@,
    {
        Vec3 { x: self.x.add(o.x), y: self.y.add(o.y), z: self.z.add(o.z) }
    }

    /// Componentwise difference.
    pub fn sub(self, o: Vec3) -> (r: Vec3)
        requires
            v3_bounded(self, ADD_ARG_MAX as int),
            v3_bounded(o, ADD_ARG_MAX as int),
        ensures
            r.x@ == self.x@ - o.x@,
            r.y@ == self.y@ - o.y@,
            r.z@ == self.z@ - o.z@,
    {
        Vec3 { x: self.x.sub(o.x), y: self.y.sub(o.y), z: self.z.sub(o.z) }
    }

    /// Componentwise negation.
    pub fn neg(self) -> (r: Vec3)
        requires
            v3_bounded(self, ADD_ARG_MAX as int),
        ensures
            r.x@ == -self.x@,
            r.y@ == -self.y@,
            r.z@ == -self.z@,
    {
        Vec3 { x: self.x.neg(), y: self.y.neg(), z: self.z.neg() }
    }

    /// Scales every component by the scalar `t`.
    pub fn scale(self, t: Fx) -> (r: Vec3)
        requires
            v3_bounded(self, DOT_ARG_MAX as int),
            mag(t@) <= DOT_ARG_MAX as int,
        ensures
            r.x@ == fx_mul(self.x@, t@),
            r.y@ == fx_mul(self.y@, t@),
            r.z@ == fx_mul(self.z@, t@),
            v3_bounded(r, 0x1000_0000_0000_0000),
    {
        proof {
            let bb = DOT_ARG_MAX as int;
            lemma_fx_mul_bound(self.x@, t@, bb, bb);
            lemma_fx_mul_bound(self.y@, t@, bb, bb);
            lemma_fx_mul_bound(self.z@, t@, bb, bb);
            assert(bb * bb / (SCALE as int) == 0x1000_0000_0000_0000);
        }
        Vec3 { x: self.x.mul(t), y: self.y.mul(t), z: self.z.mul(t) }
    }

    /// Componentwise (Hadamard) product, as used for color attenuation.
    pub fn mul_comp(self, o: Vec3) -> (r: Vec3)
        requires
            v3_bounded(self, DOT_ARG_MAX as int),
            v3_bounded(o, DOT_ARG_MAX as int),
        ensures
            r.x@ == fx_mul(self.x@, o.x@),
            r.y@ == fx_mul(self.y@, o.y@),
            r.z@ == fx_mul(self.z@, o.z@),
            v3_bounded(r, 0x1000_0000_0000_0000),
    {
        proof {
            let bb = DOT_ARG_MAX as int;
            lemma_fx_mul_bound(self.x@, o.x@, bb, bb);
            lemma_fx_mul_bound(self.y@, o.y@, bb, bb);
            lemma_fx_mul_bound(self.z@, o.z@, bb, bb);
            assert(bb * bb / (SCALE as int) == 0x1000_0000_0000_0000);
        }
        Vec3 { x: self.x.mul(o.x), y: self.y.mul(o.y), z: self.z.mul(o.z) }
    }

    /// Squared length.
    pub fn modsq(self) -> (r: Fx)
        requires
            v3_bounded(self, DOT_ARG_MAX as int),
        ensures
            r@ == dot_spec(self, self),
            0 <= r@ <= 0x3000_0000_0000_0000,
    {
        proof {
            lemma_dot_fits(self, self);
            crate::fixed::lemma_fx_mul_self_nonneg(self.x@);
            crate::fixed::lemma_fx_mul_self_nonneg(self.y@);
            crate::fixed::lemma_fx_mul_self_nonneg(self.z@);
        }
        self.x.mul(self.x).add(self.y.mul(self.y)).add(self.z.mul(self.z))
    }

    /// Length: square root of the squared length.
    pub fn modulus(self) -> (r: Fx)
        requires
            v3_bounded(self, DOT_ARG_MAX as int),
        ensures
            r@ == fx_sqrt(dot_spec(self, self)),
            0 <= r@,
            r@ * r@ <= dot_spec(self, self) * (SCALE as int),
            in_world(self) ==> r@ <= 0x8000_0000,
    {
        let m = self.modsq();
        proof {
            lemma_sqrt_exists(m@ * (SCALE as int));
        }
        let rt = m.sqrt();
        proof {
            if in_world(self) {
                lemma_fx_mul_bound(self.x@, self.x@, WORLD_MAX as int, WORLD_MAX as int);
                lemma_fx_mul_bound(self.y@, self.y@, WORLD_MAX as int, WORLD_MAX as int);
                lemma_fx_mul_bound(self.z@, self.z@, WORLD_MAX as int, WORLD_MAX as int);
                assert((WORLD_MAX as int) * (WORLD_MAX as int) / (SCALE as int) == 0x1000_0000_0000);
                assert(rt@ <= 0x8000_0000) by (nonlinear_arith)
                    requires
                        0 <= rt@,
                        rt@ * rt@ <= m@ * (SCALE as int),
                        0 <= m@ <= 0x3000_0000_0000;
            }
        }
        rt
    }

    /// True when the vector is exactly zero.  The fixed-point grid cannot
    /// hold values between zero and one raw unit, so the degenerate-direction
    /// test collapses to an exact comparison with zero.
    pub fn near_zero(self) -> (r: bool)
        ensures
            r == (self.x@ == 0 && self.y@ == 0 && self.z@ == 0),
    {
        self.x.raw == 0 && self.y.raw == 0 && self.z.raw == 0
    }
}

impl Vec3 {
    /// The first component.
    pub fn x(&self) -> (r: Fx)
        ensures
            r == self.x,
    {
        self.x
    }

    /// The second component.
    pub fn y(&self) -> (r: Fx)
        ensures
            r == self.y,
    {
        self.y
    }

    /// The third component.
    pub fn z(&self) -> (r: Fx)
        ensures
            r == self.z,
    {
        self.z
    }

    /// Clamps every channel into the display range `[0, 0.999]`.
    pub fn clamp(&mut self)
        ensures
            final(self).x@ == clamp_channel(old(self).x@),
            final(self).y@ == clamp_channel(old(self).y@),
            final(self).z@ == clamp_channel(old(self).z@),
    {
        self.x = self.x.clamp(Fx::zero(), Fx::from_raw(65470));
        self.y = self.y.clamp(Fx::zero(), Fx::from_raw(65470));
        self.z = self.z.clamp(Fx::zero(), Fx::from_raw(65470));
    }

    /// Takes the square root of every channel (the gamma step).
    pub fn sqrt(&mut self)
        requires
            0 <= old(self).x@,
            0 <= old(self).y@,
            0 <= old(self).z@,
        ensures
            final(self).x@ == fx_sqrt(old(self).x@),
            final(self).y@ == fx_sqrt(old(self).y@),
            final(self).z@ == fx_sqrt(old(self).z@),
    {
        proof {
            lemma_sqrt_exists(old(self).x@ * (SCALE as int));
            lemma_sqrt_exists(old(self).y@ * (SCALE as int));
            lemma_sqrt_exists(old(self).z@ * (SCALE as int));
        }
        self.x = self.x.sqrt();
        self.y = self.y.sqrt();
        self.z = self.z.sqrt();
    }

    /// Runtime test of a componentwise magnitude bound.
    pub fn check_bounded_abs(&self, b: i64) -> (r: bool)
        requires
            b >= 0,
        ensures
            r == v3_bounded(*self, b as int),
    {
        self.x.raw <= b && self.x.raw >= -b && self.y.raw <= b && self.y.raw >= -b && self.z.raw
            <= b && self.z.raw >= -b
    }

    /// Runtime test that the vector lies within world bounds.
    pub fn check_in_world(&self) -> (b: bool)
        ensures
            b == in_world(*self),
    {
        self.x.raw <= WORLD_MAX && self.x.raw >= -WORLD_MAX && self.y.raw <= WORLD_MAX
            && self.y.raw >= -WORLD_MAX && self.z.raw <= WORLD_MAX && self.z.raw >= -WORLD_MAX
    }
}

/// A channel clamped into the display range.
pub open spec fn clamp_channel(c: int) -> int {
    if c < 0 {
        0
    } else if c > 65470 {
        65470
    } else {
        c
    }
}

impl Vec3 {
    /// A vector with three uniform channels in `[0, 1)`.
    pub fn random(rng: &mut rand::rngs::ThreadRng) -> (r: Vec3)
        ensures
            0 <= r.x@ < SCALE as int,
            0 <= r.y@ < SCALE as int,
            0 <= r.z@ < SCALE as int,
    {
        let x = crate::rng::rand_unit(rng);
        let y = crate::rng::rand_unit(rng);
        let z = crate::rng::rand_unit(rng);
        Vec3 { x, y, z }
    }

    /// A vector with three uniform channels in `[lo, hi)`.
    pub fn randomr(rng: &mut rand::rngs::ThreadRng, lo: Fx, hi: Fx) -> (r: Vec3)
        requires
            lo@ < hi@,
            mag(lo@) <= 0x1_0000_0000_0000,
            mag(hi@) <= 0x1_0000_0000_0000,
        ensures
            lo@ <= r.x@ < hi@,
            lo@ <= r.y@ < hi@,
            lo@ <= r.z@ < hi@,
    {
        let x = crate::rng::rand_range(rng, lo, hi);
        let y = crate::rng::rand_range(rng, lo, hi);
        let z = crate::rng::rand_range(rng, lo, hi);
        Vec3 { x, y, z }
    }
}

/// Raw components of the cross product of `a` and `b`.
pub open spec fn cross_spec_x(a: Vec3, b: Vec3) -> int {
    fx_mul(a.y@, b.z@) - fx_mul(a.z@, b.y@)
}

pub open spec fn cross_spec_y(a: Vec3, b: Vec3) -> int {
    fx_mul(a.z@, b.x@) - fx_mul(a.x@, b.z@)
}

pub open spec fn cross_spec_z(a: Vec3, b: Vec3) -> int {
    fx_mul(a.x@, b.y@) - fx_mul(a.y@, b.x@)
}

/// Dot product.
pub fn dot(a: &Vec3, b: &Vec3) -> (r: Fx)
    requires
        v3_bounded(*a, DOT_ARG_MAX as int),
        v3_bounded(*b, DOT_ARG_MAX as int),
    ensures
        r@ == dot_spec(*a, *b),
        mag(r@) <= 0x3000_0000_0000_0000,
{
    proof {
        lemma_dot_fits(*a, *b);
    }
    a.x.mul(b.x).add(a.y.mul(b.y)).add(a.z.mul(b.z))
}

/// Cross product.
pub fn cross(a: &Vec3, b: &Vec3) -> (r: Vec3)
    requires
        v3_bounded(*a, DOT_ARG_MAX as int),
        v3_bounded(*b, DOT_ARG_MAX as int),
    ensures
        r.x@ == cross_spec_x(*a, *b),
        r.y@ == cross_spec_y(*a, *b),
        r.z@ == cross_spec_z(*a, *b),
        v3_bounded(r, 0x2000_0000_0000_0000),
{
    proof {
        let bb = DOT_ARG_MAX as int;
        lemma_fx_mul_bound(a.y@, b.z@, bb, bb);
        lemma_fx_mul_bound(a.z@, b.y@, bb, bb);
        lemma_fx_mul_bound(a.z@, b.x@, bb, bb);
        lemma_fx_mul_bound(a.x@, b.z@, bb, bb);
        lemma_fx_mul_bound(a.x@, b.y@, bb, bb);
        lemma_fx_mul_bound(a.y@, b.x@, bb, bb);
        assert(bb * bb / (SCALE as int) == 0x1000_0000_0000_0000);
    }
    Vec3 {
        x: a.y.mul(b.z).sub(a.z.mul(b.y)),
        y: a.z.mul(b.x).sub(a.x.mul(b.z)),
        z: a.x.mul(b.y).sub(a.y.mul(b.x)),
    }
}

} // verus!
