//! Shared geometric aliases and small vector utilities.

use vstd::prelude::*;

use crate::fixed::{
    fabs, fabs_s, fadd, fadd_s, fneg, fneg_s, fsqrt, fsqrt_s, fsub, fsub_s, FX_ONE,
};
use crate::rng::{next_state_s, output_s, symmetric_of_s, Rng};
use crate::vec3::{dot_s, unit_s, vadd_s, vneg_s, vscale_s, vsub_s, Vec3};

verus! {

/// A position in world coordinates.
pub type Point = Vec3;

/// A direction or displacement in world coordinates.
pub type Vector = Vec3;

/// An RGB color with fixed-point channels; `FX_ONE` is full intensity.
pub type Color = Vec3;

/// A texture coordinate pair, each component nominally in `[0, FX_ONE)`.
#[derive(Clone, Copy, Debug, PartialEq, Eq, Structural)]
pub struct TexCoord {
    pub u: i64,
    pub v: i64,
}

/// Mirror reflection of `v` about the normal `n`: `v - 2 (v . n) n`.
pub open spec fn reflect_s(v: Vec3, n: Vec3) -> Vec3 {
    let d = dot_s(v, n);
    vsub_s(v, vscale_s(n, fadd_s(d, d)))
}

/// Snell refraction of the unit direction `uv` at normal `n` with index
/// ratio `etai_over_etat`, mirroring the perpendicular/parallel split.
pub open spec fn refract_s(uv: Vec3, n: Vec3, etai_over_etat: i64) -> Vec3 {
    let cos_theta = fmin_s(dot_s(n, vneg_s(uv)), FX_ONE);
    let r_out_perp = vscale_s(vadd_s(uv, vscale_s(n, cos_theta)), etai_over_etat);
    let para_len = fneg_s(fsqrt_s(fabs_s(fsub_s(FX_ONE, dot_s(r_out_perp, r_out_perp)))));
    vadd_s(r_out_perp, vscale_s(n, para_len))
}

/// The smaller of two scalars.
pub open spec fn fmin_s(a: i64, b: i64) -> i64 {
    if a <= b {
        a
    } else {
        b
    }
}

/// Mirror reflection of `v` about the normal `n`.
pub fn reflect(v: &Vector, n: &Vector) -> (r: Vector)
    ensures
        r == reflect_s(*v, *n),
{
    let d: i64 = v.dot(*n);
    v.sub(n.scale(fadd(d, d)))
}

/// Snell refraction of the unit direction `uv` at normal `n`.
pub fn refract(uv: &Vector, n: &Vector, etai_over_etat: i64) -> (r: Vector)
    ensures
        r == refract_s(*uv, *n, etai_over_etat),
{
    let mut cos_theta: i64 = n.dot(uv.neg());
    if cos_theta > FX_ONE {
        cos_theta = FX_ONE;
    }
    let r_out_perp: Vector = uv.add(n.scale(cos_theta)).scale(etai_over_etat);
    let para_len: i64 = fneg(fsqrt(fabs(fsub(FX_ONE, r_out_perp.dot(r_out_perp)))));
    r_out_perp.add(n.scale(para_len))
}

/// One rejection-sampling round for a point in the unit ball: three
/// symmetric draws; accepted when the squared length is under one.
/// After `tries` rejections the sample degrades to a fixed interior
/// point rather than looping on.
pub open spec fn sphere_draw_s(state: u64, tries: nat) -> (Vec3, u64)
    decreases tries,
{
    if tries == 0 {
        (Vec3 { x: 30000i64, y: 30000i64, z: 30000i64 }, state)
    } else {
        let s1 = next_state_s(state);
        let s2 = next_state_s(s1);
        let s3 = next_state_s(s2);
        let v = Vec3 {
            x: symmetric_of_s(output_s(s1)),
            y: symmetric_of_s(output_s(s2)),
            z: symmetric_of_s(output_s(s3)),
        };
        if dot_s(v, v) < FX_ONE {
            (v, s3)
        } else {
            sphere_draw_s(s3, (tries - 1) as nat)
        }
    }
}

/// As `sphere_draw_s`, in the z = 0 plane, with two draws per round.
pub open spec fn disk_draw_s(state: u64, tries: nat) -> (Vec3, u64)
    decreases tries,
{
    if tries == 0 {
        (Vec3 { x: 30000i64, y: 30000i64, z: 0i64 }, state)
    } else {
        let s1 = next_state_s(state);
        let s2 = next_state_s(s1);
        let v = Vec3 { x: symmetric_of_s(output_s(s1)), y: symmetric_of_s(output_s(s2)), z: 0i64 };
        if dot_s(v, v) < FX_ONE {
            (v, s2)
        } else {
            disk_draw_s(s2, (tries - 1) as nat)
        }
    }
}

/// A point strictly inside the unit ball, by rejection sampling.
pub fn random_in_unit_sphere(rng: &mut Rng) -> (r: Vector)
    ensures
        r == sphere_draw_s(old(rng).state, 64).0,
        final(rng).state == sphere_draw_s(old(rng).state, 64).1,
{
    let ghost orig: u64 = rng.state;
    let mut k: usize = 0;
    while k < 64
        invariant
            k <= 64,
            orig == old(rng).state,
            sphere_draw_s(orig, 64) == sphere_draw_s(rng.state, (64 - k) as nat),
        decreases 64 - k,
    {
        let x: i64 = rng.next_symmetric();
        let y: i64 = rng.next_symmetric();
        let z: i64 = rng.next_symmetric();
        let v = Vec3 { x, y, z };
        if v.dot(v) < FX_ONE {
            return v;
        }
        k = k + 1;
    }
    Vec3 { x: 30000, y: 30000, z: 30000 }
}

/// A point strictly inside the unit disk, by rejection sampling.
pub fn random_in_unit_disk(rng: &mut Rng) -> (r: Vector)
    ensures
        r == disk_draw_s(old(rng).state, 64).0,
        final(rng).state == disk_draw_s(old(rng).state, 64).1,
{
    let ghost orig: u64 = rng.state;
    let mut k: usize = 0;
    while k < 64
        invariant
            k <= 64,
            orig == old(rng).state,
            disk_draw_s(orig, 64) == disk_draw_s(rng.state, (64 - k) as nat),
        decreases 64 - k,
    {
        let x: i64 = rng.next_symmetric();
        let y: i64 = rng.next_symmetric();
        let v = Vec3 { x, y, z: 0 };
        if v.dot(v) < FX_ONE {
            return v;
        }
        k = k + 1;
    }
    Vec3 { x: 30000, y: 30000, z: 0 }
}

/// A unit-length direction: a ball sample scaled to unit length.
pub fn random_unit_vector(rng: &mut Rng) -> (r: Vector)
    ensures
        r == unit_s(sphere_draw_s(old(rng).state, 64).0),
        final(rng).state == sphere_draw_s(old(rng).state, 64).1,
{
    random_in_unit_sphere(rng).unit_vector()
}

/// A unit direction on the hemisphere around `normal`.
pub fn random_on_hemisphere(rng: &mut Rng, normal: &Vector) -> (r: Vector)
    ensures
        ({
            let v = unit_s(sphere_draw_s(old(rng).state, 64).0);
            r == if dot_s(v, *normal) > 0 {
                v
            } else {
                vneg_s(v)
            }
        }),
        final(rng).state == sphere_draw_s(old(rng).state, 64).1,
{
    let v: Vector = random_unit_vector(rng);
    if v.dot(*normal) > 0 {
        v
    } else {
        v.neg()
    }
}

/// A color channel quantized for output: gamma-corrected by the fixed
/// square root, clamped to `[0, 1]`, and scaled to `0..=255`.
pub open spec fn quantize_s(c: i64) -> u8 {
    let g = fsqrt_s(c);
    let cl = if g > FX_ONE {
        FX_ONE
    } else {
        g
    };
    let q = (cl * 256) / 65536;
    if q > 255 {
        255u8
    } else {
        q as u8
    }
}

/// The shortest decimal digits of a byte value.
pub open spec fn dec_s(n: u8) -> Seq<u8> {
    if n >= 100 {
        seq![(48 + n / 100) as u8, (48 + (n / 10) % 10) as u8, (48 + n % 10) as u8]
    } else if n >= 10 {
        seq![(48 + n / 10) as u8, (48 + n % 10) as u8]
    } else {
        seq![(48 + n) as u8]
    }
}

/// One output line: the three quantized channels, space-separated.
pub open spec fn color_line_s(c: Color) -> Seq<u8> {
    dec_s(quantize_s(c.x)) + seq![32u8] + dec_s(quantize_s(c.y)) + seq![32u8] + dec_s(
        quantize_s(c.z),
    ) + seq![10u8]
}

/// Append one channel's quantized value.
fn push_channel(out: &mut Vec<u8>, c: i64)
    ensures
        final(out)@ == old(out)@ + dec_s(quantize_s(c)),
{
    let g: i64 = fsqrt(c);
    let cl: i64 = if g > FX_ONE {
        FX_ONE
    } else {
        g
    };
    proof {
        crate::fixed::lemma_fsqrt_nonneg(c);
    }
    let q64: u64 = ((cl as u64) * 256) / 65536;
    let n: u8 = if q64 > 255 {
        255
    } else {
        q64 as u8
    };
    proof {
        assert(n == quantize_s(c));
    }
    if n >= 100 {
        out.push(48 + n / 100);
        out.push(48 + (n / 10) % 10);
        out.push(48 + n % 10);
    } else if n >= 10 {
        out.push(48 + n / 10);
        out.push(48 + n % 10);
    } else {
        out.push(48 + n);
    }
    proof {
        assert(out@ =~= old(out)@ + dec_s(quantize_s(c)));
    }
}

/// Append one pixel's text line: `R G B` and a newline.
pub fn write_color(out: &mut Vec<u8>, c: Color)
    ensures
        final(out)@ == old(out)@ + color_line_s(c),
{
    push_channel(out, c.x);
    out.push(32);
    push_channel(out, c.y);
    out.push(32);
    push_channel(out, c.z);
    out.push(10);
    proof {
        assert(out@ =~= old(out)@ + color_line_s(c));
    }
}

} // verus!
