use raytracing::fixed::FX_ONE;
use raytracing::hittable::HitRecord;
use raytracing::material::{Dielectric, DiffuseLight, Lambertian, Material, Metal};
use raytracing::ray::Ray;
use raytracing::rng::Rng;
use raytracing::texture::{GlobalChecker, ImageTexture, SolidColor, Texture};
use raytracing::units::{reflect, refract, TexCoord};
use raytracing::vec3::Vec3;

const ONE: i64 = 65536;

fn v(x: i64, y: i64, z: i64) -> Vec3 {
    Vec3 { x, y, z }
}

fn hit_at_origin(normal: Vec3, front_face: bool) -> HitRecord {
    HitRecord { p: v(0, 0, 0), normal, mat: 0, t: ONE, uv: TexCoord { u: 0, v: 0 }, front_face }
}

#[test]
fn reflect_mirrors_about_the_normal() {
    let r = reflect(&v(ONE, -ONE, 0), &v(0, ONE, 0));
    assert_eq!(r, v(ONE, ONE, 0));
}

#[test]
fn refract_passes_straight_through_at_normal_incidence() {
    let uv = v(0, 0, ONE);
    let n = v(0, 0, -ONE);
    assert_eq!(refract(&uv, &n, ONE), uv);
}

#[test]
fn dielectric_total_internal_reflection_uses_the_mirror_formula() {
    // grazing ray inside glass: the direction is parallel to the surface,
    // so sin(theta) is 1 and 1.5 * 1 > 1 forces reflection
    let d = Material::Dielectric(Dielectric { ir: 3 * ONE / 2 });
    let hit = hit_at_origin(v(0, 0, ONE), false);
    let ray = Ray { origin: v(-ONE, 0, 0), direct: v(ONE, 0, 0), time: 0 };
    let mut rng = Rng::from_seed(5);
    let state_before = rng.state;
    let info = d.hit_info(&ray, &hit, &mut rng);
    // the random source is untouched: reflection was forced, not drawn
    assert_eq!(rng.state, state_before);
    let (attenuation, scattered) = info.scatter.expect("a dielectric always scatters");
    assert_eq!(attenuation, v(ONE, ONE, ONE));
    // mirror formula: d - 2 (d . n) n with d . n == 0 leaves d unchanged
    assert_eq!(scattered.direct, v(ONE, 0, 0));
    assert!(info.emit.is_none());
}

#[test]
fn lambertian_scatters_with_texture_color_and_no_emission() {
    let m = Material::Lambertian(Lambertian::new_with_color(v(ONE / 2, ONE / 4, ONE)));
    let hit = hit_at_origin(v(0, ONE, 0), true);
    let ray = Ray { origin: v(0, 2 * ONE, 0), direct: v(0, -ONE, 0), time: 7 };
    let mut rng = Rng::from_seed(11);
    let info = m.hit_info(&ray, &hit, &mut rng);
    let (attenuation, scattered) = info.scatter.expect("diffuse surfaces scatter");
    assert_eq!(attenuation, v(ONE / 2, ONE / 4, ONE));
    assert_eq!(scattered.origin, v(0, 0, 0));
    assert_eq!(scattered.time, 7, "the scattered ray keeps the incoming ray's time");
    // the scatter direction leans toward the normal
    assert!(scattered.direct.y > 0);
    assert!(info.emit.is_none());
}

#[test]
fn metal_reflects_and_fuzz_zero_is_exact() {
    let m = Material::Metal(Metal { albedo: v(ONE, ONE / 2, 0), fuzz: 0 });
    let hit = hit_at_origin(v(0, ONE, 0), true);
    let ray = Ray { origin: v(-ONE, ONE, 0), direct: v(ONE, -ONE, 0), time: 0 };
    let mut rng = Rng::from_seed(3);
    let info = m.hit_info(&ray, &hit, &mut rng);
    let (attenuation, scattered) = info.scatter.expect("metal scatters");
    assert_eq!(attenuation, v(ONE, ONE / 2, 0));
    // fuzz 0 scales the random perturbation away entirely
    assert_eq!(scattered.direct, v(ONE, ONE, 0));
}

#[test]
fn diffuse_light_emits_and_does_not_scatter() {
    let m = Material::DiffuseLight(DiffuseLight::new_with_color(v(4 * ONE, 4 * ONE, 4 * ONE)));
    let hit = hit_at_origin(v(0, ONE, 0), true);
    let ray = Ray { origin: v(0, 2 * ONE, 0), direct: v(0, -ONE, 0), time: 0 };
    let mut rng = Rng::from_seed(1);
    let info = m.hit_info(&ray, &hit, &mut rng);
    assert!(info.scatter.is_none());
    assert_eq!(info.emit.unwrap(), v(4 * ONE, 4 * ONE, 4 * ONE));
}

#[test]
fn lambertian_keeps_scatter_directions_into_negative_octants() {
    // a downward normal sends many scatter directions all-negative;
    // the degeneracy fallback must test magnitude, not the signed
    // maximum, so such directions survive as drawn
    let m = Material::Lambertian(Lambertian::new_with_color(v(ONE / 2, ONE / 2, ONE / 2)));
    let hit = hit_at_origin(v(0, -ONE, 0), true);
    let ray = Ray { origin: v(0, 2 * ONE, 0), direct: v(0, -ONE, 0), time: 0 };
    let mut kept_negative: usize = 0;
    for seed in 0..200u64 {
        let mut rng = Rng::from_seed(seed);
        let info = m.hit_info(&ray, &hit, &mut rng);
        let (_, scattered) = info.scatter.expect("diffuse surfaces scatter");
        let d = scattered.direct;
        if d != hit.normal && d.x <= 0 && d.y <= 0 && d.z <= 0 {
            kept_negative += 1;
        }
    }
    assert!(kept_negative > 10, "all-negative scatter directions kept: {kept_negative}");
}

#[test]
fn checker_parity_follows_the_floored_coordinates() {
    let red = v(ONE, 0, 0);
    let blue = v(0, 0, ONE);
    let checker = Texture::Checker(GlobalChecker::new_colors(ONE, red, blue));
    let uv = TexCoord { u: 0, v: 0 };
    // floor(0.5) + floor(0.5) + floor(0.5) = 0: even
    assert_eq!(checker.value(uv, v(ONE / 2, ONE / 2, ONE / 2)), red);
    // floor(1.5) = 1 flips the parity
    assert_eq!(checker.value(uv, v(3 * ONE / 2, ONE / 2, ONE / 2)), blue);
    // floor(-0.5) = -1, not 0: the pattern continues across zero
    assert_eq!(checker.value(uv, v(-ONE / 2, ONE / 2, ONE / 2)), blue);
}

#[test]
fn solid_color_ignores_coordinates() {
    let t = Texture::Solid(SolidColor { color: v(1, 2, 3) });
    assert_eq!(t.value(TexCoord { u: 9, v: 9 }, v(7, 7, 7)), v(1, 2, 3));
}

#[test]
fn image_texture_samples_and_clamps() {
    let red = v(ONE, 0, 0);
    let blue = v(0, 0, ONE);
    let img = Texture::Image(ImageTexture::from_pixels(2, 1, vec![red, blue]));
    // u = 0 maps to the first pixel; v = 1 is the top row
    assert_eq!(img.value(TexCoord { u: 0, v: ONE }, v(0, 0, 0)), red);
    // u just under 1 maps to the last pixel
    assert_eq!(img.value(TexCoord { u: ONE - 1, v: ONE }, v(0, 0, 0)), blue);
    // u = 1 exactly is clamped onto the last pixel, not out of range
    assert_eq!(img.value(TexCoord { u: ONE, v: ONE }, v(0, 0, 0)), blue);
    // out-of-range coordinates clamp instead of failing
    assert_eq!(img.value(TexCoord { u: -ONE, v: 3 * ONE }, v(0, 0, 0)), red);
}

#[test]
fn empty_image_shows_the_loud_fallback() {
    let img = Texture::Image(ImageTexture::from_pixels(0, 0, Vec::new()));
    assert_eq!(img.value(TexCoord { u: 0, v: 0 }, v(0, 0, 0)), v(0, ONE, ONE));
}
