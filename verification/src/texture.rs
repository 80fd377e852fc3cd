//! Textures: solid colors, a world-space checker, noise, and sampled
//! bitmaps.

use vstd::prelude::*;
use crate::fixed::{Fx, SCALE, fx, fx_mul, fx_div, mag, floor_units, rtz, lemma_fx_mul_bound, lemma_fx_div_fits};
use crate::vec3::{Color, Vec3, in_world, WORLD_MAX};
use crate::trig::PI_FX;
use crate::perlin::{Perlin, perlin_wf, noise_spec};

verus! {

/// A texture that answers one color everywhere.
pub struct SolidColor {
    pub color_value: Color,
}

/// A three-dimensional checkerboard selecting between two sub-textures by
/// the sign of `sin(10x) * sin(10y) * sin(10z)` in world space.
pub struct CheckerTexture {
    pub odd: Box<Texture>,
    pub even: Box<Texture>,
}

/// Grayscale value noise, with the world point scaled first.
pub struct NoiseTexture {
    pub noise: Perlin,
    pub scale: Fx,
}

/// A decoded bitmap sampled by surface coordinates: row-major pixels,
/// top row first.
pub struct ImageTexture {
    pub width: usize,
    pub height: usize,
    pub pixels: Vec<Color>,
}

/// The closed set of textures.
pub enum Texture {
    SolidColor(SolidColor),
    Checker(CheckerTexture),
    Noise(NoiseTexture),
    Image(ImageTexture),
}

/// Channels of a stored color lie in `[0, 1]`.
pub open spec fn color_unit(c: Color) -> bool {
    &&& 0 <= c.x@ <= SCALE as int
    &&& 0 <= c.y@ <= SCALE as int
    &&& 0 <= c.z@ <= SCALE as int
}

/// Well-formed texture trees: bitmap sizes consistent, noise state sound,
/// scales within world range.  Solid colors may exceed unit brightness
/// (lights do), but stay within world range.
pub open spec fn tex_wf(t: Texture) -> bool
    decreases t,
{
    match t {
        Texture::SolidColor(s) => in_world(s.color_value) && 0 <= s.color_value.x@ && 0
            <= s.color_value.y@ && 0 <= s.color_value.z@,
        Texture::Checker(c) => tex_wf(*c.odd) && tex_wf(*c.even),
        Texture::Noise(n) => perlin_wf(n.noise) && mag(n.scale@) <= SCALE as int,
        Texture::Image(im) => im.width > 0 && im.height > 0 && im.pixels@.len() == im.width
            * im.height && im.width < 0x8000 && im.height < 0x8000 && (forall|i: int|
            0 <= i < im.pixels@.len() ==> color_unit(#[trigger] im.pixels@[i])),
    }
}

/// Whether `sin(10 c)` is negative, decided by the parity of
/// `floor(10 c / pi)` in fixed point — the sine itself is never computed.
pub open spec fn sin10_negative(c: int) -> bool {
    floor_units(fx_div(10 * c, PI_FX as int)) % 2 != 0
}

/// The checker selector: the product of the three sines is negative when
/// an odd number of them is.
pub open spec fn checker_odd_spec(p: Vec3) -> bool {
    ((if sin10_negative(p.x@) {
        1int
    } else {
        0int
    }) + (if sin10_negative(p.y@) {
        1int
    } else {
        0int
    }) + (if sin10_negative(p.z@) {
        1int
    } else {
        0int
    })) % 2 == 1
}

/// The pixel indices a bitmap sample maps to: `u` clamped to `[0, 1]`, `v`
/// clamped and flipped, scaled by the size and clamped to the last pixel.
pub open spec fn image_index_spec(im: ImageTexture, u: int, v: int) -> (int, int) {
    let uc = if u < 0 {
        0
    } else if u > SCALE as int {
        SCALE as int
    } else {
        u
    };
    let vc = SCALE as int - (if v < 0 {
        0
    } else if v > SCALE as int {
        SCALE as int
    } else {
        v
    });
    let i0 = rtz(uc * im.width as int, SCALE as int);
    let j0 = rtz(vc * im.height as int, SCALE as int);
    let i = if i0 >= im.width as int {
        im.width as int - 1
    } else {
        i0
    };
    let j = if j0 >= im.height as int {
        im.height as int - 1
    } else {
        j0
    };
    (i, j)
}

/// The color a texture answers at surface coordinates `(u, v)` and world
/// point `p`.
pub open spec fn tex_value_spec(t: Texture, u: int, v: int, p: Vec3) -> Color
    decreases t,
{
    match t {
        Texture::SolidColor(s) => s.color_value,
        Texture::Checker(c) => if checker_odd_spec(p) {
            tex_value_spec(*c.odd, u, v, p)
        } else {
            tex_value_spec(*c.even, u, v, p)
        },
        Texture::Noise(n) => {
            let q = Vec3 {
                x: fx(fx_mul(p.x@, n.scale@)),
                y: fx(fx_mul(p.y@, n.scale@)),
                z: fx(fx_mul(p.z@, n.scale@)),
            };
            let g = noise_spec(n.noise, q);
            Color { x: fx(g), y: fx(g), z: fx(g) }
        },
        Texture::Image(im) => {
            let ij = image_index_spec(im, u, v);
            im.pixels@[ij.1 * im.width as int + ij.0]
        },
    }
}

impl SolidColor {
    /// A texture of one color.
    pub fn from_color(color_value: Color) -> (t: SolidColor)
        ensures
            t.color_value == color_value,
    {
        SolidColor { color_value }
    }

    /// A texture of one color given by channels.
    pub fn from_rgb(red: Fx, green: Fx, blue: Fx) -> (t: SolidColor)
        ensures
            t.color_value == (Color { x: red, y: green, z: blue }),
    {
        SolidColor { color_value: Color { x: red, y: green, z: blue } }
    }
}

impl CheckerTexture {
    /// A checker over two sub-textures.
    pub fn new(even: Box<Texture>, odd: Box<Texture>) -> (t: CheckerTexture)
        ensures
            t.even == even,
            t.odd == odd,
    {
        CheckerTexture { odd, even }
    }

    /// A checker over two solid colors.
    pub fn from_color(c1: Color, c2: Color) -> (t: CheckerTexture)
        ensures
            t.even == Box::new(Texture::SolidColor(SolidColor { color_value: c1 })),
            t.odd == Box::new(Texture::SolidColor(SolidColor { color_value: c2 })),
    {
        CheckerTexture {
            odd: Box::new(Texture::SolidColor(SolidColor { color_value: c2 })),
            even: Box::new(Texture::SolidColor(SolidColor { color_value: c1 })),
        }
    }
}

impl NoiseTexture {
    /// Grayscale noise with a world-space scale.
    pub fn new(noise: Perlin, scale: Fx) -> (t: NoiseTexture)
        ensures
            t.scale == scale,
    {
        NoiseTexture { noise, scale }
    }
}

/// Whether `sin(10 c)` is negative, in fixed point.
fn sin10_neg(c: Fx) -> (r: bool)
    requires
        mag(c@) <= WORLD_MAX as int,
    ensures
        r == sin10_negative(c@),
{
    proof {
        lemma_fx_div_fits(10 * c@, PI_FX as int, 10 * WORLD_MAX as int);
    }
    let scaled = Fx::from_raw(10 * c.raw).div(Fx::from_raw(PI_FX));
    let (q, _rem) = scaled.floor_parts();
    let mq: u64 = if q >= 0 {
        q as u64
    } else {
        (-(q as i128)) as u64
    };
    proof {
        vstd::arithmetic::div_mod::lemma_fundamental_div_mod(q as int, 2);
        vstd::arithmetic::div_mod::lemma_mod_division_less_than_divisor(q as int, 2);
        vstd::arithmetic::div_mod::lemma_fundamental_div_mod(mag(q as int), 2);
        vstd::arithmetic::div_mod::lemma_mod_division_less_than_divisor(mag(q as int), 2);
        assert((q as int) % 2 != 0 <==> mag(q as int) % 2 != 0) by (nonlinear_arith)
            requires
                (q as int) % 2 == (q as int) - 2 * ((q as int) / 2) || (q as int) % 2 == (q as int)
                    + mag(q as int),
            ;
    }
    mq % 2 == 1
}

impl Texture {
    /// The color at surface coordinates `(u, v)` and world point `p`.
    pub fn value(&self, u: Fx, v: Fx, p: &Vec3) -> (r: Color)
        requires
            tex_wf(*self),
            in_world(*p),
        ensures
            r == tex_value_spec(*self, u@, v@, *p),
            tex_wf(*self) ==> color_ok(r),
        decreases *self,
    {
        match self {
            Texture::SolidColor(s) => s.color_value,
            Texture::Checker(c) => {
                let nx = sin10_neg(p.x);
                let ny = sin10_neg(p.y);
                let nz = sin10_neg(p.z);
                let count: u32 = (if nx {
                    1
                } else {
                    0
                }) + (if ny {
                    1
                } else {
                    0
                }) + (if nz {
                    1
                } else {
                    0
                });
                if count % 2 == 1 {
                    c.odd.value(u, v, p)
                } else {
                    c.even.value(u, v, p)
                }
            },
            Texture::Noise(n) => {
                proof {
                    lemma_fx_mul_bound(p.x@, n.scale@, WORLD_MAX as int, SCALE as int);
                    lemma_fx_mul_bound(p.y@, n.scale@, WORLD_MAX as int, SCALE as int);
                    lemma_fx_mul_bound(p.z@, n.scale@, WORLD_MAX as int, SCALE as int);
                    assert((WORLD_MAX as int) * (SCALE as int) / (SCALE as int)
                        == WORLD_MAX as int);
                }
                let q = Vec3::new(p.x.mul(n.scale), p.y.mul(n.scale), p.z.mul(n.scale));
                let g = n.noise.noise(&q);
                Vec3::new(g, g, g)
            },
            Texture::Image(im) => {
                let uc = if u.raw < 0 {
                    Fx::zero()
                } else if u.raw > SCALE {
                    Fx::one()
                } else {
                    u
                };
                let vc = Fx::from_raw(SCALE - (if v.raw < 0 {
                    0
                } else if v.raw > SCALE {
                    SCALE
                } else {
                    v.raw
                }));
                proof {
                    lemma_nonneg_rtz(uc@ * im.width as int);
                    lemma_nonneg_rtz(vc@ * im.height as int);
                    assert(uc@ * im.width as int >= 0) by (nonlinear_arith)
                        requires
                            uc@ >= 0,
                            im.width as int >= 0;
                    assert(vc@ * im.height as int >= 0) by (nonlinear_arith)
                        requires
                            vc@ >= 0,
                            im.height as int >= 0;
                    assert(uc@ * im.width as int <= 65536 * 65536) by (nonlinear_arith)
                        requires
                            0 <= uc@ <= 65536,
                            0 <= im.width as int && (im.width as int) < 32768;
                    assert(vc@ * im.height as int <= 65536 * 65536) by (nonlinear_arith)
                        requires
                            0 <= vc@ <= 65536,
                            0 <= im.height as int && (im.height as int) < 32768;
                }
                let i0 = ((uc.raw as u64) * (im.width as u64)) / 65536;
                let j0 = ((vc.raw as u64) * (im.height as u64)) / 65536;
                let i = if i0 >= im.width as u64 {
                    im.width - 1
                } else {
                    i0 as usize
                };
                let j = if j0 >= im.height as u64 {
                    im.height - 1
                } else {
                    j0 as usize
                };
                proof {
                    assert(i0 >= 0);
                    assert(j0 >= 0);
                    assert((j as int) * (im.width as int) + (i as int) < (im.height as int) * (
                    im.width as int)) by (nonlinear_arith)
                        requires
                            0 <= i as int && (i as int) < im.width as int,
                            0 <= j as int && (j as int) < im.height as int;
                    assert((im.height as int) * (im.width as int) == (im.width as int) * (
                    im.height as int)) by (nonlinear_arith);
                    assert((j as int) * (im.width as int) >= 0) by (nonlinear_arith)
                        requires
                            j as int >= 0,
                            im.width as int >= 0;
                    assert((j as int) * (im.width as int) <= 32767 * 32767) by (nonlinear_arith)
                        requires
                            0 <= j as int && (j as int) < 32768,
                            0 <= im.width as int && (im.width as int) < 32768;
                }
                im.pixels[j * im.width + i]
            },
        }
    }
}

/// Division of a nonnegative product by the scale rounds like the
/// Euclidean quotient.
proof fn lemma_nonneg_rtz(n: int)
    requires
        n >= 0,
    ensures
        rtz(n, SCALE as int) == n / (SCALE as int),
        rtz(n, SCALE as int) >= 0,
{
    vstd::arithmetic::div_mod::lemma_div_pos_is_pos(n, SCALE as int);
}

/// A usable color: every channel nonnegative and within world range.
/// Texture answers, emissions and attenuations all satisfy it.
pub open spec fn color_ok(c: Color) -> bool {
    &&& in_world(c)
    &&& 0 <= c.x@
    &&& 0 <= c.y@
    &&& 0 <= c.z@
}

} // verus!
