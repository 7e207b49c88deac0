//! Textures: a color as a function of surface coordinates and position.

use vstd::prelude::*;

use crate::fixed::{fdiv, fdiv_s, floor_div, fmul, fmul_s, FX_ONE};
use crate::units::{Color, Point, TexCoord};
use crate::vec3::Vec3;

verus! {

/// A single color everywhere.
pub struct SolidColor {
    pub color: Color,
}

/// A three-dimensional checker: the parity of the summed, scaled,
/// floored world coordinates picks one of two textures.
pub struct GlobalChecker {
    pub inv_scale: i64,
    pub even: Box<Texture>,
    pub odd: Box<Texture>,
}

/// A bitmap sampled by surface coordinates; an empty image shows a
/// loud fallback color instead of failing.
pub struct ImageTexture {
    pub width: usize,
    pub height: usize,
    pub pixels: Vec<Color>,
}

/// The closed set of texture variants.
pub enum Texture {
    Solid(SolidColor),
    Checker(GlobalChecker),
    Image(ImageTexture),
}

/// The fallback color for a missing or out-of-range bitmap sample.
pub open spec fn missing_color_s() -> Color {
    Vec3 { x: 0i64, y: FX_ONE, z: FX_ONE }
}

/// A coordinate clamped into `[0, FX_ONE]`.
pub open spec fn clamp_unit_s(x: i64) -> i64 {
    if x < 0 {
        0
    } else if x > FX_ONE {
        FX_ONE
    } else {
        x
    }
}

/// The bitmap sample: coordinates clamped, the vertical axis flipped,
/// scaled to pixel indices, capped at the last row and column.
pub open spec fn image_value_s(img: ImageTexture, uv: TexCoord) -> Color {
    if img.width == 0 || img.height == 0 || img.pixels@.len() == 0 {
        missing_color_s()
    } else {
        let u = clamp_unit_s(uv.u);
        let v = FX_ONE - clamp_unit_s(uv.v);
        let i0 = (u * img.width) / 65536;
        let j0 = (v * img.height) / 65536;
        let i = if i0 > img.width - 1 {
            img.width - 1
        } else {
            i0
        };
        let j = if j0 > img.height - 1 {
            img.height - 1
        } else {
            j0
        };
        if j * img.width + i < img.pixels@.len() {
            img.pixels@[j * img.width + i]
        } else {
            missing_color_s()
        }
    }
}

/// The color of a texture at a surface point.
pub open spec fn texture_value_s(t: Texture, uv: TexCoord, point: Point) -> Color
    decreases t,
{
    match t {
        Texture::Solid(sc) => sc.color,
        Texture::Checker(ch) => {
            let fx = (fmul_s(point.x, ch.inv_scale) as int) / 65536;
            let fy = (fmul_s(point.y, ch.inv_scale) as int) / 65536;
            let fz = (fmul_s(point.z, ch.inv_scale) as int) / 65536;
            if (fx + fy + fz) % 2 == 0 {
                texture_value_s(*ch.even, uv, point)
            } else {
                texture_value_s(*ch.odd, uv, point)
            }
        },
        Texture::Image(img) => image_value_s(img, uv),
    }
}

impl GlobalChecker {
    /// A checker over two textures; the pattern repeats every `scale`
    /// world units (a zero scale degenerates to a zero frequency).
    pub fn new(scale: i64, even: Texture, odd: Texture) -> (r: GlobalChecker)
        ensures
            r.inv_scale == if scale == 0 {
                0i64
            } else {
                fdiv_s(FX_ONE, scale)
            },
            *r.even == even,
            *r.odd == odd,
    {
        let inv_scale: i64 = if scale == 0 {
            0
        } else {
            fdiv(FX_ONE, scale)
        };
        GlobalChecker { inv_scale, even: Box::new(even), odd: Box::new(odd) }
    }

    /// A checker over two solid colors.
    pub fn new_colors(scale: i64, even: Color, odd: Color) -> (r: GlobalChecker)
        ensures
            r.inv_scale == if scale == 0 {
                0i64
            } else {
                fdiv_s(FX_ONE, scale)
            },
            *r.even == Texture::Solid(SolidColor { color: even }),
            *r.odd == Texture::Solid(SolidColor { color: odd }),
    {
        Self::new(
            scale,
            Texture::Solid(SolidColor { color: even }),
            Texture::Solid(SolidColor { color: odd }),
        )
    }
}

impl ImageTexture {
    /// A bitmap from a row-major pixel buffer.
    pub fn from_pixels(width: usize, height: usize, pixels: Vec<Color>) -> (r: ImageTexture)
        ensures
            r.width == width,
            r.height == height,
            r.pixels@ == pixels@,
    {
        ImageTexture { width, height, pixels }
    }
}

impl Texture {
    /// The color of the texture at the given coordinates and point.
    pub fn value(&self, uv: TexCoord, point: Point) -> (r: Color)
        ensures
            r == texture_value_s(*self, uv, point),
        decreases *self,
    {
        match self {
            Texture::Solid(sc) => sc.color,
            Texture::Checker(ch) => {
                let fx: i64 = floor_div(fmul(point.x, ch.inv_scale), 65536);
                let fy: i64 = floor_div(fmul(point.y, ch.inv_scale), 65536);
                let fz: i64 = floor_div(fmul(point.z, ch.inv_scale), 65536);
                let px: i64 = crate::trig::modp(fx, 2);
                let py: i64 = crate::trig::modp(fy, 2);
                let pz: i64 = crate::trig::modp(fz, 2);
                let s: i64 = px + py + pz;
                let is_even: bool = s == 0 || s == 2;
                proof {
                    vstd::arithmetic::div_mod::lemma_add_mod_noop(fx as int, fy as int, 2);
                    vstd::arithmetic::div_mod::lemma_add_mod_noop(
                        (fx as int) + (fy as int),
                        fz as int,
                        2,
                    );
                    assert(((fx + fy + fz) % 2 == 0) == is_even);
                }
                if is_even {
                    ch.even.value(uv, point)
                } else {
                    ch.odd.value(uv, point)
                }
            },
            Texture::Image(img) => {
                if img.width == 0 || img.height == 0 || img.pixels.len() == 0 {
                    return Vec3 { x: 0, y: FX_ONE, z: FX_ONE };
                }
                let u: i64 = clamp_unit(uv.u);
                let v: i64 = FX_ONE - clamp_unit(uv.v);
                proof {
                    crate::fixed::lemma_mul_bound(
                        u as int,
                        img.width as int,
                        65536,
                        0xFFFF_FFFF_FFFF_FFFF,
                    );
                    crate::fixed::lemma_mul_bound(
                        v as int,
                        img.height as int,
                        65536,
                        0xFFFF_FFFF_FFFF_FFFF,
                    );
                }
                let i0: u128 = (u as u128 * img.width as u128) / 65536;
                let j0: u128 = (v as u128 * img.height as u128) / 65536;
                let i: u128 = if i0 > img.width as u128 - 1 {
                    img.width as u128 - 1
                } else {
                    i0
                };
                let j: u128 = if j0 > img.height as u128 - 1 {
                    img.height as u128 - 1
                } else {
                    j0
                };
                proof {
                    crate::fixed::lemma_mul_bound(
                        j as int,
                        img.width as int,
                        0xFFFF_FFFF_FFFF_FFFF,
                        0xFFFF_FFFF_FFFF_FFFF,
                    );
                }
                let idx: u128 = j * img.width as u128 + i;
                if idx < img.pixels.len() as u128 {
                    img.pixels[idx as usize]
                } else {
                    Vec3 { x: 0, y: FX_ONE, z: FX_ONE }
                }
            },
        }
    }
}

/// Clamp a coordinate into `[0, FX_ONE]`.
fn clamp_unit(x: i64) -> (r: i64)
    ensures
        r == clamp_unit_s(x),
{
    if x < 0 {
        0
    } else if x > FX_ONE {
        FX_ONE
    } else {
        x
    }
}

} // verus!
