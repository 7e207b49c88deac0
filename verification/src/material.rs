//! The material scattering model.

use vstd::prelude::*;

use crate::fixed::{
    fadd, fadd_s, fdiv, fdiv_s, fmul, fmul_s, fsqrt, fsqrt_s, fsub, fsub_s, FX_ONE,
};
use crate::hittable::HitRecord;
use crate::ray::Ray;
use crate::rng::{next_state_s, output_s, unit_of_s, Rng};
use crate::texture::{texture_value_s, SolidColor, Texture};
use crate::units::{
    random_unit_vector, reflect, reflect_s, refract, refract_s, sphere_draw_s, Color,
};
use crate::vec3::{dot_s, max3_s, unit_s, vabs_s, vadd_s, vneg_s, vscale_s, Vec3};

verus! {

/// What a surface does to a ray: an optional scattered continuation
/// with its attenuation, and an optional emitted color.
pub struct MatRecord {
    pub scatter: Option<(Color, Ray)>,
    pub emit: Option<Color>,
}

/// Diffuse reflection with a texture-sampled albedo.
pub struct Lambertian {
    pub albedo: Texture,
}

/// A mirror with a fuzz radius.
pub struct Metal {
    pub albedo: Color,
    pub fuzz: i64,
}

/// A refractive surface with an index of refraction.
pub struct Dielectric {
    pub ir: i64,
}

/// An emission-only surface.
pub struct DiffuseLight {
    pub emit: Texture,
}

/// The closed set of materials.
pub enum Material {
    Lambertian(Lambertian),
    Metal(Metal),
    Dielectric(Dielectric),
    DiffuseLight(DiffuseLight),
}

/// The Schlick reflectance approximation
/// `r0 + (1 - r0)(1 - cos)^5` with `r0 = ((1 - n)/(1 + n))^2`,
/// total at a degenerate index of -1.
pub open spec fn reflectance_s(cosine: i64, ref_idx: i64) -> i64 {
    let denom = fadd_s(FX_ONE, ref_idx);
    let r0 = if denom == 0 {
        FX_ONE
    } else {
        let t = fdiv_s(fsub_s(FX_ONE, ref_idx), denom);
        fmul_s(t, t)
    };
    let omc = fsub_s(FX_ONE, cosine);
    let omc2 = fmul_s(omc, omc);
    let omc4 = fmul_s(omc2, omc2);
    let omc5 = fmul_s(omc4, omc);
    fadd_s(r0, fmul_s(fsub_s(FX_ONE, r0), omc5))
}

/// The scattering of a Lambertian surface from a random-source state:
/// the normal plus a random unit direction, with the normal itself as
/// the fallback when that sum has near-zero magnitude: every component
/// under one fixed-point unit in absolute value.
pub open spec fn lambertian_info_s(
    m: Lambertian,
    ray: Ray,
    hit: HitRecord,
    state: u64,
) -> (MatRecord, u64) {
    let draw = sphere_draw_s(state, 64);
    let direct0 = vadd_s(hit.normal, unit_s(draw.0));
    let direct = if max3_s(vabs_s(direct0)) < 1 {
        hit.normal
    } else {
        direct0
    };
    let scattered = Ray { origin: hit.p, direct, time: ray.time };
    let color = texture_value_s(m.albedo, hit.uv, hit.p);
    (MatRecord { scatter: Some((color, scattered)), emit: None }, draw.1)
}

/// The scattering of a metal surface: the mirror direction perturbed
/// by a fuzz-scaled random unit direction.
pub open spec fn metal_info_s(m: Metal, ray: Ray, hit: HitRecord, state: u64) -> (MatRecord, u64) {
    let draw = sphere_draw_s(state, 64);
    let reflected = reflect_s(ray.direct, hit.normal);
    let direct = vadd_s(reflected, vscale_s(unit_s(draw.0), m.fuzz));
    let scattered = Ray { origin: hit.p, direct, time: ray.time };
    (MatRecord { scatter: Some((m.albedo, scattered)), emit: None }, draw.1)
}

/// The scattering of a dielectric surface: refract by Snell's law
/// unless total internal reflection makes that impossible, or the
/// Schlick reflectance beats a uniform draw; then mirror-reflect.
/// White attenuation either way. The draw is made only when total
/// internal reflection has not already decided.
pub open spec fn dielectric_info_s(
    m: Dielectric,
    ray: Ray,
    hit: HitRecord,
    state: u64,
) -> (MatRecord, u64) {
    let ratio = if hit.front_face {
        if m.ir == 0 {
            0i64
        } else {
            fdiv_s(FX_ONE, m.ir)
        }
    } else {
        m.ir
    };
    let unit_direction = unit_s(ray.direct);
    let cos_theta = {
        let d = dot_s(hit.normal, vneg_s(unit_direction));
        if d > FX_ONE {
            FX_ONE
        } else {
            d
        }
    };
    let sin_theta = fsqrt_s(fsub_s(FX_ONE, fmul_s(cos_theta, cos_theta)));
    let tir = fmul_s(ratio, sin_theta) > FX_ONE;
    let s1 = if tir {
        state
    } else {
        next_state_s(state)
    };
    let cannot_refract = tir || reflectance_s(cos_theta, ratio) > unit_of_s(output_s(s1));
    let direct = if cannot_refract {
        reflect_s(unit_direction, hit.normal)
    } else {
        refract_s(unit_direction, hit.normal, ratio)
    };
    let scattered = Ray { origin: hit.p, direct, time: ray.time };
    let white = Vec3 { x: FX_ONE, y: FX_ONE, z: FX_ONE };
    (MatRecord { scatter: Some((white, scattered)), emit: None }, s1)
}

/// The emission of a diffuse light: no scattering, the texture's color.
pub open spec fn diffuse_light_info_s(
    m: DiffuseLight,
    ray: Ray,
    hit: HitRecord,
    state: u64,
) -> (MatRecord, u64) {
    (MatRecord { scatter: None, emit: Some(texture_value_s(m.emit, hit.uv, hit.p)) }, state)
}

/// What any material does to a ray at a hit, from a random-source state.
pub open spec fn material_info_s(
    m: Material,
    ray: Ray,
    hit: HitRecord,
    state: u64,
) -> (MatRecord, u64) {
    match m {
        Material::Lambertian(l) => lambertian_info_s(l, ray, hit, state),
        Material::Metal(mt) => metal_info_s(mt, ray, hit, state),
        Material::Dielectric(d) => dielectric_info_s(d, ray, hit, state),
        Material::DiffuseLight(dl) => diffuse_light_info_s(dl, ray, hit, state),
    }
}

impl Lambertian {
    /// A diffuse material over one solid color.
    pub fn new_with_color(color: Color) -> (r: Lambertian)
        ensures
            r.albedo == Texture::Solid(SolidColor { color }),
    {
        Lambertian { albedo: Texture::Solid(SolidColor { color }) }
    }
}

impl DiffuseLight {
    /// A light over one solid color.
    pub fn new_with_color(color: Color) -> (r: DiffuseLight)
        ensures
            r.emit == Texture::Solid(SolidColor { color }),
    {
        DiffuseLight { emit: Texture::Solid(SolidColor { color }) }
    }
}

impl Dielectric {
    /// The Schlick reflectance approximation.
    fn reflectance(cosine: i64, ref_idx: i64) -> (r: i64)
        ensures
            r == reflectance_s(cosine, ref_idx),
    {
        let denom: i64 = fadd(FX_ONE, ref_idx);
        let r0: i64 = if denom == 0 {
            FX_ONE
        } else {
            let t: i64 = fdiv(fsub(FX_ONE, ref_idx), denom);
            fmul(t, t)
        };
        let omc: i64 = fsub(FX_ONE, cosine);
        let omc2: i64 = fmul(omc, omc);
        let omc4: i64 = fmul(omc2, omc2);
        let omc5: i64 = fmul(omc4, omc);
        fadd(r0, fmul(fsub(FX_ONE, r0), omc5))
    }
}

impl Material {
    /// The material's response to a ray at a hit point.
    pub fn hit_info(&self, ray: &Ray, hit: &HitRecord, rng: &mut Rng) -> (r: MatRecord)
        ensures
            r == material_info_s(*self, *ray, *hit, old(rng).state).0,
            final(rng).state == material_info_s(*self, *ray, *hit, old(rng).state).1,
    {
        match self {
            Material::Lambertian(l) => {
                let unit = random_unit_vector(rng);
                let direct0 = hit.normal.add(unit);
                let direct = if direct0.abs().max_element() < 1 {
                    hit.normal
                } else {
                    direct0
                };
                let scattered = Ray { origin: hit.p, direct, time: ray.time };
                let color = l.albedo.value(hit.uv, hit.p);
                MatRecord { scatter: Some((color, scattered)), emit: None }
            },
            Material::Metal(mt) => {
                let reflected = reflect(&ray.direct, &hit.normal);
                let unit = random_unit_vector(rng);
                let direct = reflected.add(unit.scale(mt.fuzz));
                let scattered = Ray { origin: hit.p, direct, time: ray.time };
                MatRecord { scatter: Some((mt.albedo, scattered)), emit: None }
            },
            Material::Dielectric(d) => {
                let ratio: i64 = if hit.front_face {
                    if d.ir == 0 {
                        0
                    } else {
                        fdiv(FX_ONE, d.ir)
                    }
                } else {
                    d.ir
                };
                let unit_direction = ray.direct.unit_vector();
                let mut cos_theta: i64 = hit.normal.dot(unit_direction.neg());
                if cos_theta > FX_ONE {
                    cos_theta = FX_ONE;
                }
                let sin_theta: i64 = fsqrt(fsub(FX_ONE, fmul(cos_theta, cos_theta)));
                let tir: bool = fmul(ratio, sin_theta) > FX_ONE;
                let cannot_refract: bool = tir || Self::schlick_fires(cos_theta, ratio, rng);
                let direct = if cannot_refract {
                    reflect(&unit_direction, &hit.normal)
                } else {
                    refract(&unit_direction, &hit.normal, ratio)
                };
                let scattered = Ray { origin: hit.p, direct, time: ray.time };
                let white = Vec3 { x: FX_ONE, y: FX_ONE, z: FX_ONE };
                MatRecord { scatter: Some((white, scattered)), emit: None }
            },
            Material::DiffuseLight(dl) => {
                let color = dl.emit.value(hit.uv, hit.p);
                MatRecord { scatter: None, emit: Some(color) }
            },
        }
    }

    /// Whether the Schlick reflectance beats one uniform draw.
    fn schlick_fires(cos_theta: i64, ratio: i64, rng: &mut Rng) -> (r: bool)
        ensures
            final(rng).state == next_state_s(old(rng).state),
            r == (reflectance_s(cos_theta, ratio) > unit_of_s(
                output_s(next_state_s(old(rng).state)),
            )),
    {
        let refl: i64 = Dielectric::reflectance(cos_theta, ratio);
        let draw: i64 = rng.next_unit();
        refl > draw
    }
}

/// Total internal reflection forces the mirror direction: whenever the
/// scaled sine exceeds one, the scattered ray's direction is exactly
/// the reflection formula applied to the unit incoming direction, and
/// no random draw is consumed.
pub proof fn lemma_dielectric_total_internal_reflection(
    m: Dielectric,
    ray: Ray,
    hit: HitRecord,
    state: u64,
)
    ensures
        ({
            let ratio = if hit.front_face {
                if m.ir == 0 {
                    0i64
                } else {
                    fdiv_s(FX_ONE, m.ir)
                }
            } else {
                m.ir
            };
            let unit_direction = unit_s(ray.direct);
            let cos_theta = {
                let d = dot_s(hit.normal, vneg_s(unit_direction));
                if d > FX_ONE {
                    FX_ONE
                } else {
                    d
                }
            };
            let sin_theta = fsqrt_s(fsub_s(FX_ONE, fmul_s(cos_theta, cos_theta)));
            fmul_s(ratio, sin_theta) > FX_ONE ==> {
                let out = dielectric_info_s(m, ray, hit, state);
                &&& out.1 == state
                &&& match out.0.scatter {
                    Some(pair) => pair.1.direct == reflect_s(unit_direction, hit.normal),
                    None => false,
                }
            }
        }),
{
}

} // verus!
