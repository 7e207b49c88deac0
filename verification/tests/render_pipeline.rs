use raytracing::camera::{Camera, CameraBuilder};
use raytracing::hittable::sphere::Sphere;
use raytracing::hittable::{Hittable, HittableList};
use raytracing::material::{Lambertian, Material};
use raytracing::ray::Ray;
use raytracing::rng::Rng;
use raytracing::texture::{GlobalChecker, Texture};
use raytracing::time_utils::{Movement, Unchanging};
use raytracing::units::write_color;
use raytracing::vec3::Vec3;

const ONE: i64 = 65536;

fn v(x: i64, y: i64, z: i64) -> Vec3 {
    Vec3 { x, y, z }
}

fn grey_sphere_world() -> (Hittable, Vec<Material>) {
    let world = Hittable::Sphere(Sphere::new(
        Movement::Unchanging(Unchanging(v(0, 0, 0))),
        ONE / 2,
        0,
    ));
    let materials = vec![Material::Lambertian(Lambertian::new_with_color(v(
        ONE / 2,
        ONE / 2,
        ONE / 2,
    )))];
    (world, materials)
}

fn sky() -> Vec3 {
    // 0.7, 0.8, 1.0
    v(45875, 52428, ONE)
}

fn grey_camera() -> Camera {
    CameraBuilder::default()
        .with_aspect_ratio(ONE)
        .with_image_width(2)
        .with_vfov(10 * ONE)
        .with_lookfrom(v(0, 0, -3 * ONE))
        .with_lookat(v(0, 0, 0))
        .with_vup(v(0, ONE, 0))
        .with_defocus_angle(0)
        .with_samples_per_pixel(1)
        .with_max_depth(2)
        .with_background(sky())
        .build()
}

#[test]
fn write_color_formats_quantized_channels() {
    let mut out: Vec<u8> = Vec::new();
    write_color(&mut out, v(0, ONE, ONE / 4));
    assert_eq!(out, b"0 255 128\n");
    let mut hot: Vec<u8> = Vec::new();
    write_color(&mut hot, v(4 * ONE, -5, 22937));
    // overbright clamps to 255, negatives to 0
    assert_eq!(hot, b"255 0 151\n");
}

#[test]
fn one_bounce_on_a_grey_sphere_attenuates_the_background() {
    let (world, materials) = grey_sphere_world();
    let ray = Ray { origin: v(0, 0, -3 * ONE), direct: v(0, 0, ONE), time: 0 };
    let mut rng = Rng::from_seed(9);
    let c = Camera::ray_color(&ray, &world, &materials, sky(), 2, &mut rng);
    // half of (0.7, 0.8, 1.0), exactly
    assert_eq!(c, v(22937, 26214, ONE / 2));
}

#[test]
fn a_missing_ray_returns_the_background_exactly() {
    let (world, materials) = grey_sphere_world();
    let ray = Ray { origin: v(0, 0, -3 * ONE), direct: v(0, ONE, 0), time: 0 };
    let mut rng = Rng::from_seed(9);
    let before = rng.state;
    let c = Camera::ray_color(&ray, &world, &materials, sky(), 2, &mut rng);
    assert_eq!(c, sky());
    assert_eq!(rng.state, before, "a miss consumes no randomness");
}

#[test]
fn depth_zero_is_black() {
    let (world, materials) = grey_sphere_world();
    let ray = Ray { origin: v(0, 0, -3 * ONE), direct: v(0, 0, ONE), time: 0 };
    let mut rng = Rng::from_seed(9);
    let c = Camera::ray_color(&ray, &world, &materials, sky(), 0, &mut rng);
    assert_eq!(c, v(0, 0, 0));
}

#[test]
fn two_by_two_grey_sphere_render_is_exact() {
    let cam = grey_camera();
    let (world, materials) = grey_sphere_world();
    let out = cam.render(&world, &materials, 77);
    // every pixel ray strikes the sphere; one grey bounce then escape:
    // each channel is half the sky, gamma-corrected to 151 161 181
    let expected = b"P3\n2 2\n255\n\
        151 161 181\n151 161 181\n151 161 181\n151 161 181\n";
    assert_eq!(
        String::from_utf8(out).unwrap(),
        String::from_utf8(expected.to_vec()).unwrap(),
    );
}

#[test]
fn rendering_twice_with_one_seed_is_identical() {
    let cam = grey_camera();
    let (world, materials) = grey_sphere_world();
    let a = cam.render(&world, &materials, 42);
    let b = cam.render(&world, &materials, 42);
    assert_eq!(a, b);
}

fn two_spheres_world() -> (Hittable, Vec<Material>) {
    let checker = Texture::Checker(GlobalChecker::new_colors(
        52429,
        v(13107, 19660, 6553),
        v(58982, 58982, 58982),
    ));
    let materials = vec![Material::Lambertian(Lambertian { albedo: checker })];
    let mut list = HittableList::with_capacity(2);
    list.add(Hittable::Sphere(Sphere::new(
        Movement::Unchanging(Unchanging(v(0, -10 * ONE, 0))),
        10 * ONE,
        0,
    )));
    list.add(Hittable::Sphere(Sphere::new(
        Movement::Unchanging(Unchanging(v(0, 10 * ONE, 0))),
        10 * ONE,
        0,
    )));
    (Hittable::List(list), materials)
}

#[test]
fn checkered_spheres_regression_render() {
    let cam = CameraBuilder::default()
        .with_aspect_ratio(ONE)
        .with_image_width(8)
        .with_vfov(60 * ONE)
        .with_lookfrom(v(13 * ONE, 2 * ONE, 3 * ONE))
        .with_lookat(v(0, 0, 0))
        .with_vup(v(0, ONE, 0))
        .with_defocus_angle(0)
        .with_samples_per_pixel(2)
        .with_max_depth(4)
        .with_background(sky())
        .build();
    let (world, materials) = two_spheres_world();
    let first = cam.render(&world, &materials, 7);
    let second = cam.render(&world, &materials, 7);
    assert_eq!(first, second, "a fixed seed reproduces the image byte for byte");
    let text = String::from_utf8(first).unwrap();
    let reference = "P3\n8 8\n255\n\
        95 125 80\n95 125 80\n158 177 181\n203 217 242\n\
        95 125 80\n157 175 180\n158 177 181\n158 177 181\n\
        95 125 80\n158 177 181\n158 177 181\n158 177 181\n\
        152 170 172\n158 177 181\n158 177 181\n158 177 181\n\
        95 125 80\n203 217 242\n158 177 181\n203 217 242\n\
        95 125 80\n150 168 171\n158 177 181\n165 184 189\n\
        214 228 255\n158 177 181\n158 177 181\n95 125 80\n\
        203 217 242\n158 177 181\n164 182 188\n214 228 255\n\
        214 228 255\n67 88 57\n165 184 189\n74 101 60\n\
        192 206 230\n67 92 54\n214 228 255\n214 228 255\n\
        208 223 249\n203 217 242\n90 118 76\n187 200 224\n\
        156 173 179\n158 177 181\n158 177 181\n214 228 255\n\
        143 153 171\n203 217 242\n158 177 181\n74 101 60\n\
        74 101 60\n203 217 242\n157 175 180\n158 177 181\n\
        158 177 181\n158 177 181\n157 175 180\n158 177 181\n\
        95 125 80\n146 160 172\n158 177 181\n203 217 242\n";
    assert_eq!(text, reference, "the fixed-seed render must match the recorded image");
    let mut lines = text.lines().skip(3);
    assert_eq!(lines.clone().count(), 64, "one line per pixel in row-major order");
    for line in lines.by_ref() {
        let channels: Vec<u32> = line.split(' ').map(|t| t.parse().unwrap()).collect();
        assert_eq!(channels.len(), 3);
    }
}

#[test]
fn camera_rays_are_reproducible_per_seed() {
    let cam = grey_camera();
    let mut r1 = Rng::from_seed(100);
    let mut r2 = Rng::from_seed(100);
    let a = cam.get_ray(0, 1, &mut r1);
    let b = cam.get_ray(0, 1, &mut r2);
    assert_eq!(a, b);
    let c = cam.get_ray(1, 0, &mut r1);
    assert_ne!(a, c, "different pixels aim different rays");
}

#[test]
fn builder_defaults_resolve_square_dimensions() {
    let cam = CameraBuilder::default().with_image_width(40).build();
    assert_eq!(cam.image_width, 40);
    assert_eq!(cam.image_height, 40);
    let wide = CameraBuilder::default()
        .with_aspect_ratio(2 * ONE)
        .with_image_width(40)
        .build();
    assert_eq!(wide.image_height, 20);
    // the default width is already set, so an explicit height wins outright
    let tall = CameraBuilder::default()
        .with_aspect_ratio(2 * ONE)
        .with_image_height(30)
        .build();
    assert_eq!(tall.image_width, 100);
    assert_eq!(tall.image_height, 30);
}
