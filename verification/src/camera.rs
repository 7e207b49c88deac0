//! The camera, the path integrator and the image assembly.

use rayon::iter::{IntoParallelIterator, ParallelIterator};

use vstd::prelude::*;

use crate::fixed::{fadd, fadd_s, fmul, fmul_s, fneg_s, fx_of_int_s, fx_of_usize, FX_ONE, FX_SAT};
use crate::hittable::interval::Interval;
use crate::hittable::Hittable;
use crate::material::{material_info_s, Material};
use crate::ray::Ray;
use crate::rng::{next_state_s, output_s, unit_of_s, wadd_s, wmul_s, Rng};
use crate::trig::{deg_to_rad, deg_to_rad_s, tan_fx, tan_s};
use crate::units::{
    color_line_s, disk_draw_s, random_in_unit_disk, write_color, Color, Point, Vector,
};
use crate::vec3::{cross_s, unit_s, vadd_s, vdiv_s, vmul_s, vscale_s, vsub_s, Vec3};

verus! {

/// The stride mixed into the seed per image row, so that rows draw
/// from independent streams.
pub const ROW_STRIDE: u64 = 0xD1342543DE82EF95;

/// Everything the builder collects before `build` resolves it.
pub struct CameraBuilder {
    pub aspect_ratio: i64,
    pub image_width: Option<usize>,
    pub image_height: Option<usize>,
    pub vfov: i64,
    pub lookfrom: Point,
    pub lookat: Point,
    pub vup: Vector,
    pub defocus_angle: i64,
    pub focus_dist: i64,
    pub samples_per_pixel: usize,
    pub max_depth: usize,
    pub background: Color,
}

/// The resolved camera: image geometry, viewport frame, lens disk,
/// and the sampling parameters.
pub struct Camera {
    pub image_width: usize,
    pub image_height: usize,
    pub center: Point,
    pub pixel_00_loc: Point,
    pub pixel_delta_u: Vector,
    pub pixel_delta_v: Vector,
    pub defocus_angle: i64,
    pub defocus_disk_u: Vector,
    pub defocus_disk_v: Vector,
    pub samples_per_pixel: usize,
    pub max_depth: usize,
    pub background: Color,
}

/// A pixel count divided by a fixed-point ratio, floored; zero for a
/// ratio that is not positive, capped at the platform limit.
pub open spec fn dim_div_s(n: usize, ratio: i64) -> usize {
    if ratio <= 0 {
        0usize
    } else {
        let q = (n * 65536) / (ratio as int);
        if q > usize::MAX {
            usize::MAX
        } else {
            q as usize
        }
    }
}

/// A pixel count multiplied by a fixed-point ratio, floored.
pub open spec fn dim_mul_s(n: usize, ratio: i64) -> usize {
    if ratio <= 0 {
        0usize
    } else {
        let q = (n * (ratio as int)) / 65536;
        if q > usize::MAX {
            usize::MAX
        } else {
            q as usize
        }
    }
}

/// The resolved image dimensions: explicit values win; a missing one
/// comes from the other through the aspect ratio.
pub open spec fn dims_s(b: CameraBuilder) -> (usize, usize) {
    match (b.image_width, b.image_height) {
        (Option::None, Option::None) => (100usize, dim_div_s(100, b.aspect_ratio)),
        (Option::Some(w), Option::None) => (w, dim_div_s(w, b.aspect_ratio)),
        (Option::None, Option::Some(h)) => (dim_mul_s(h, b.aspect_ratio), h),
        (Option::Some(w), Option::Some(h)) => (w, h),
    }
}

/// The whole camera derivation: viewport size from the field of view
/// and focus distance, the orthonormal frame from the look direction,
/// per-pixel deltas, the first pixel's center, and the defocus disk.
pub open spec fn build_s(b: CameraBuilder) -> Camera {
    let dims = dims_s(b);
    let w = dims.0;
    let h = dims.1;
    let center = b.lookfrom;
    let theta = deg_to_rad_s(b.vfov);
    let h_tan = tan_s(fmul_s(theta, 32768));
    let viewport_height = fmul_s(fadd_s(b.focus_dist, b.focus_dist), h_tan);
    let viewport_width = {
        let hf = fx_of_int_s(h as int);
        if hf == 0 {
            0i64
        } else {
            crate::fixed::fdiv_s(fmul_s(viewport_height, fx_of_int_s(w as int)), hf)
        }
    };
    let w_basis = unit_s(vsub_s(b.lookfrom, b.lookat));
    let u_basis = unit_s(cross_s(b.vup, w_basis));
    let v_basis = cross_s(w_basis, u_basis);
    let viewport_u = vscale_s(u_basis, viewport_width);
    let viewport_v = vscale_s(v_basis, fneg_s(viewport_height));
    let pixel_delta_u = vdiv_s(viewport_u, fx_of_int_s(w as int));
    let pixel_delta_v = vdiv_s(viewport_v, fx_of_int_s(h as int));
    let viewport_upper_left = vsub_s(
        vsub_s(center, vscale_s(w_basis, b.focus_dist)),
        vscale_s(vadd_s(viewport_u, viewport_v), 32768),
    );
    let pixel_00_loc = vadd_s(viewport_upper_left, vscale_s(vadd_s(pixel_delta_u, pixel_delta_v), 32768));
    let defocus_radius = fmul_s(b.focus_dist, tan_s(deg_to_rad_s(fmul_s(b.defocus_angle, 32768))));
    Camera {
        image_width: w,
        image_height: h,
        center,
        pixel_00_loc,
        pixel_delta_u,
        pixel_delta_v,
        defocus_angle: b.defocus_angle,
        defocus_disk_u: vscale_s(u_basis, defocus_radius),
        defocus_disk_v: vscale_s(v_basis, defocus_radius),
        samples_per_pixel: b.samples_per_pixel,
        max_depth: b.max_depth,
        background: b.background,
    }
}

impl Default for CameraBuilder {
    /// A unit aspect, a 100-pixel width, a one-degree field of view,
    /// a camera on the negative z axis looking at the origin.
    fn default() -> (r: CameraBuilder)
        ensures
            r == (CameraBuilder {
                aspect_ratio: FX_ONE,
                image_width: Option::Some(100usize),
                image_height: Option::None::<usize>,
                vfov: FX_ONE,
                lookfrom: Vec3 { x: 0i64, y: 0i64, z: ((-FX_ONE) as i64) },
                lookat: Vec3 { x: 0i64, y: 0i64, z: 0i64 },
                vup: Vec3 { x: 0i64, y: FX_ONE, z: 0i64 },
                defocus_angle: 0i64,
                focus_dist: 655360i64,
                samples_per_pixel: 10usize,
                max_depth: 10usize,
                background: Vec3 { x: 0i64, y: 0i64, z: 0i64 },
            }),
    {
        CameraBuilder {
            aspect_ratio: FX_ONE,
            image_width: Some(100),
            image_height: None,
            vfov: FX_ONE,
            lookfrom: Vec3 { x: 0, y: 0, z: -FX_ONE },
            lookat: Vec3 { x: 0, y: 0, z: 0 },
            vup: Vec3 { x: 0, y: FX_ONE, z: 0 },
            defocus_angle: 0,
            focus_dist: 655360,
            samples_per_pixel: 10,
            max_depth: 10,
            background: Vec3 { x: 0, y: 0, z: 0 },
        }
    }
}

impl CameraBuilder {
    pub fn with_aspect_ratio(self, aspect_ratio: i64) -> (r: Self)
        ensures
            r == (CameraBuilder { aspect_ratio, ..self }),
    {
        CameraBuilder { aspect_ratio, ..self }
    }

    pub fn with_image_width(self, image_width: usize) -> (r: Self)
        ensures
            r == (CameraBuilder { image_width: Option::Some(image_width), ..self }),
    {
        CameraBuilder { image_width: Some(image_width), ..self }
    }

    pub fn with_image_height(self, image_height: usize) -> (r: Self)
        ensures
            r == (CameraBuilder { image_height: Option::Some(image_height), ..self }),
    {
        CameraBuilder { image_height: Some(image_height), ..self }
    }

    pub fn with_vfov(self, vfov: i64) -> (r: Self)
        ensures
            r == (CameraBuilder { vfov, ..self }),
    {
        CameraBuilder { vfov, ..self }
    }

    pub fn with_lookfrom(self, lookfrom: Point) -> (r: Self)
        ensures
            r == (CameraBuilder { lookfrom, ..self }),
    {
        CameraBuilder { lookfrom, ..self }
    }

    pub fn with_lookat(self, lookat: Point) -> (r: Self)
        ensures
            r == (CameraBuilder { lookat, ..self }),
    {
        CameraBuilder { lookat, ..self }
    }

    pub fn with_vup(self, vup: Vector) -> (r: Self)
        ensures
            r == (CameraBuilder { vup, ..self }),
    {
        CameraBuilder { vup, ..self }
    }

    pub fn with_defocus_angle(self, defocus_angle: i64) -> (r: Self)
        ensures
            r == (CameraBuilder { defocus_angle, ..self }),
    {
        CameraBuilder { defocus_angle, ..self }
    }

    pub fn with_focus_dist(self, focus_dist: i64) -> (r: Self)
        ensures
            r == (CameraBuilder { focus_dist, ..self }),
    {
        CameraBuilder { focus_dist, ..self }
    }

    pub fn with_samples_per_pixel(self, samples_per_pixel: usize) -> (r: Self)
        ensures
            r == (CameraBuilder { samples_per_pixel, ..self }),
    {
        CameraBuilder { samples_per_pixel, ..self }
    }

    pub fn with_max_depth(self, max_depth: usize) -> (r: Self)
        ensures
            r == (CameraBuilder { max_depth, ..self }),
    {
        CameraBuilder { max_depth, ..self }
    }

    pub fn with_background(self, background: Color) -> (r: Self)
        ensures
            r == (CameraBuilder { background, ..self }),
    {
        CameraBuilder { background, ..self }
    }

    /// Resolve the collected settings into a camera.
    pub fn build(self) -> (r: Camera)
        ensures
            r == build_s(self),
    {
        let dims = resolve_dims(&self);
        let w: usize = dims.0;
        let h: usize = dims.1;
        let center: Point = self.lookfrom;
        let theta: i64 = deg_to_rad(self.vfov);
        let h_tan: i64 = tan_fx(fmul(theta, 32768));
        let viewport_height: i64 = fmul(fadd(self.focus_dist, self.focus_dist), h_tan);
        let hf: i64 = fx_of_usize(h);
        let viewport_width: i64 = if hf == 0 {
            0
        } else {
            crate::fixed::fdiv(fmul(viewport_height, fx_of_usize(w)), hf)
        };
        let w_basis: Vector = self.lookfrom.sub(self.lookat).unit_vector();
        let u_basis: Vector = self.vup.cross(w_basis).unit_vector();
        let v_basis: Vector = w_basis.cross(u_basis);
        let viewport_u: Vector = u_basis.scale(viewport_width);
        let viewport_v: Vector = v_basis.scale(crate::fixed::fneg(viewport_height));
        let pixel_delta_u: Vector = viewport_u.div_by(fx_of_usize(w));
        let pixel_delta_v: Vector = viewport_v.div_by(fx_of_usize(h));
        let viewport_upper_left: Point = center
            .sub(w_basis.scale(self.focus_dist))
            .sub(viewport_u.add(viewport_v).scale(32768));
        let pixel_00_loc: Point = viewport_upper_left.add(
            pixel_delta_u.add(pixel_delta_v).scale(32768),
        );
        let defocus_radius: i64 = fmul(
            self.focus_dist,
            tan_fx(deg_to_rad(fmul(self.defocus_angle, 32768))),
        );
        Camera {
            image_width: w,
            image_height: h,
            center,
            pixel_00_loc,
            pixel_delta_u,
            pixel_delta_v,
            defocus_angle: self.defocus_angle,
            defocus_disk_u: u_basis.scale(defocus_radius),
            defocus_disk_v: v_basis.scale(defocus_radius),
            samples_per_pixel: self.samples_per_pixel,
            max_depth: self.max_depth,
            background: self.background,
        }
    }
}

/// Resolve the image dimensions from the builder's settings.
fn resolve_dims(b: &CameraBuilder) -> (r: (usize, usize))
    ensures
        r == dims_s(*b),
{
    match (b.image_width, b.image_height) {
        (None, None) => (100, dim_div(100, b.aspect_ratio)),
        (Some(w), None) => (w, dim_div(w, b.aspect_ratio)),
        (None, Some(h)) => (dim_mul(h, b.aspect_ratio), h),
        (Some(w), Some(h)) => (w, h),
    }
}

/// A pixel count divided by a fixed-point ratio.
fn dim_div(n: usize, ratio: i64) -> (r: usize)
    ensures
        r == dim_div_s(n, ratio),
{
    if ratio <= 0 {
        return 0;
    }
    proof {
        crate::fixed::lemma_mul_bound(n as int, 65536, 0xFFFF_FFFF_FFFF_FFFF, 65536);
    }
    let q: u128 = (n as u128 * 65536) / (ratio as u128);
    if q > usize::MAX as u128 {
        usize::MAX
    } else {
        q as usize
    }
}

/// A pixel count multiplied by a fixed-point ratio.
fn dim_mul(n: usize, ratio: i64) -> (r: usize)
    ensures
        r == dim_mul_s(n, ratio),
{
    if ratio <= 0 {
        return 0;
    }
    proof {
        crate::fixed::lemma_mul_bound(
            n as int,
            ratio as int,
            0xFFFF_FFFF_FFFF_FFFF,
            0x8000_0000_0000_0000,
        );
    }
    let q: u128 = (n as u128 * ratio as u128) / 65536;
    if q > usize::MAX as u128 {
        usize::MAX
    } else {
        q as usize
    }
}

/// The ray for one sample of pixel `(i, j)`: the pixel center jittered
/// inside its square, the origin jittered on the defocus disk when the
/// lens is open, and a random time in `[0, 1)`.
pub open spec fn get_ray_s(cam: Camera, i: int, j: int, state: u64) -> (Ray, u64) {
    let s1 = next_state_s(state);
    let px = (unit_of_s(output_s(s1)) - 32768) as i64;
    let s2 = next_state_s(s1);
    let py = (unit_of_s(output_s(s2)) - 32768) as i64;
    let offset = vadd_s(vscale_s(cam.pixel_delta_u, px), vscale_s(cam.pixel_delta_v, py));
    let pixel_center = vadd_s(
        vadd_s(cam.pixel_00_loc, vscale_s(cam.pixel_delta_u, fx_of_int_s(i))),
        vscale_s(cam.pixel_delta_v, fx_of_int_s(j)),
    );
    let pixel_sample = vadd_s(pixel_center, offset);
    let lens = if cam.defocus_angle <= 0 {
        (cam.center, s2)
    } else {
        let dd = disk_draw_s(s2, 64);
        (
            vadd_s(
                vadd_s(cam.center, vscale_s(cam.defocus_disk_u, dd.0.x)),
                vscale_s(cam.defocus_disk_v, dd.0.y),
            ),
            dd.1,
        )
    };
    let s4 = next_state_s(lens.1);
    let time = unit_of_s(output_s(s4));
    (Ray { origin: lens.0, direct: vsub_s(pixel_sample, lens.0), time }, s4)
}

/// The color carried by a ray: black at exhausted depth; the
/// background on a miss; on a hit, the scattered continuation's color
/// attenuated, plus any emission. A hit whose material index is out
/// of range contributes black.
pub open spec fn ray_color_s(
    ray: Ray,
    world: Hittable,
    mats: Seq<Material>,
    background: Color,
    depth: nat,
    state: u64,
) -> (Color, u64)
    decreases depth,
{
    if depth == 0 {
        (Vec3 { x: 0i64, y: 0i64, z: 0i64 }, state)
    } else {
        match world.hit_s(ray, Interval { min: 66i64, max: FX_SAT }) {
            None => (background, state),
            Some(hit) => {
                if hit.mat >= mats.len() {
                    (Vec3 { x: 0i64, y: 0i64, z: 0i64 }, state)
                } else {
                    let info = material_info_s(mats[hit.mat as int], ray, hit, state);
                    let scat = match info.0.scatter {
                        Some(pair) => {
                            let rc = ray_color_s(
                                pair.1,
                                world,
                                mats,
                                background,
                                (depth - 1) as nat,
                                info.1,
                            );
                            (vmul_s(rc.0, pair.0), rc.1)
                        },
                        None => (Vec3 { x: 0i64, y: 0i64, z: 0i64 }, info.1),
                    };
                    let total = match info.0.emit {
                        Some(e) => vadd_s(scat.0, e),
                        None => scat.0,
                    };
                    (total, scat.1)
                }
            },
        }
    }
}

/// The per-row random stream's starting state.
pub open spec fn row_seed_s(seed: u64, j: int) -> u64 {
    wadd_s(seed, wmul_s(j as u64, ROW_STRIDE))
}

/// The sum of `n` independent sample colors for pixel `(i, j)`.
pub open spec fn sample_sum_s(
    cam: Camera,
    world: Hittable,
    mats: Seq<Material>,
    i: int,
    j: int,
    n: nat,
    state: u64,
) -> (Color, u64)
    decreases n,
{
    if n == 0 {
        (Vec3 { x: 0i64, y: 0i64, z: 0i64 }, state)
    } else {
        let prev = sample_sum_s(cam, world, mats, i, j, (n - 1) as nat, state);
        let gr = get_ray_s(cam, i, j, prev.1);
        let rc = ray_color_s(gr.0, world, mats, cam.background, cam.max_depth as nat, gr.1);
        (vadd_s(prev.0, rc.0), rc.1)
    }
}

/// One pixel: the sample sum averaged over the sample count.
pub open spec fn pixel_color_s(
    cam: Camera,
    world: Hittable,
    mats: Seq<Material>,
    i: int,
    j: int,
    state: u64,
) -> (Color, u64) {
    let ss = sample_sum_s(cam, world, mats, i, j, cam.samples_per_pixel as nat, state);
    (vdiv_s(ss.0, fx_of_int_s(cam.samples_per_pixel as int)), ss.1)
}

/// The first `i` pixels of row `j`, with the random stream threaded
/// left to right from the row seed.
pub open spec fn row_upto_s(
    cam: Camera,
    world: Hittable,
    mats: Seq<Material>,
    j: int,
    seed: u64,
    i: nat,
) -> (Seq<Color>, u64)
    decreases i,
{
    if i == 0 {
        (Seq::<Color>::empty(), row_seed_s(seed, j))
    } else {
        let prev = row_upto_s(cam, world, mats, j, seed, (i - 1) as nat);
        let pc = pixel_color_s(cam, world, mats, i - 1, j, prev.1);
        (prev.0.push(pc.0), pc.1)
    }
}

/// The colors of row `j`.
pub open spec fn row_colors_s(
    cam: Camera,
    world: Hittable,
    mats: Seq<Material>,
    j: int,
    seed: u64,
) -> Seq<Color> {
    row_upto_s(cam, world, mats, j, seed, cam.image_width as nat).0
}

/// The decimal digits of a count.
pub open spec fn dec_usize_s(n: nat) -> Seq<u8>
    decreases n,
{
    if n < 10 {
        seq![(48 + n) as u8]
    } else {
        dec_usize_s(n / 10) + seq![(48 + n % 10) as u8]
    }
}

/// The text header: the magic line, the dimensions, the channel maximum.
pub open spec fn header_s(w: usize, h: usize) -> Seq<u8> {
    seq![80u8, 51u8, 10u8] + dec_usize_s(w as nat) + seq![32u8] + dec_usize_s(h as nat) + seq![
        10u8,
    ] + dec_usize_s(255) + seq![10u8]
}

/// A row's pixels as text lines.
pub open spec fn row_bytes_s(row: Seq<Color>) -> Seq<u8>
    decreases row.len(),
{
    if row.len() == 0 {
        Seq::<u8>::empty()
    } else {
        row_bytes_s(row.drop_last()) + color_line_s(row.last())
    }
}

/// All rows' pixels as text lines, top row first.
pub open spec fn image_bytes_s(rows: Seq<Seq<Color>>) -> Seq<u8>
    decreases rows.len(),
{
    if rows.len() == 0 {
        Seq::<u8>::empty()
    } else {
        image_bytes_s(rows.drop_last()) + row_bytes_s(rows.last())
    }
}

/// The whole output of a render from a seed: header plus pixel lines.
pub open spec fn render_bytes_s(
    cam: Camera,
    world: Hittable,
    mats: Seq<Material>,
    seed: u64,
) -> Seq<u8> {
    header_s(cam.image_width, cam.image_height) + image_bytes_s(
        Seq::new(cam.image_height as nat, |j: int| row_colors_s(cam, world, mats, j, seed)),
    )
}

/// Append the decimal digits of a count.
fn push_dec_usize(out: &mut Vec<u8>, n: usize)
    ensures
        final(out)@ == old(out)@ + dec_usize_s(n as nat),
    decreases n,
{
    if n < 10 {
        out.push(48 + n as u8);
        proof {
            assert(out@ =~= old(out)@ + dec_usize_s(n as nat));
        }
    } else {
        push_dec_usize(out, n / 10);
        out.push(48 + (n % 10) as u8);
        proof {
            assert(out@ =~= old(out)@ + dec_usize_s(n as nat));
        }
    }
}

impl Camera {
    /// The ray for one sample of pixel `(i, j)`.
    pub fn get_ray(&self, i: usize, j: usize, rng: &mut Rng) -> (r: Ray)
        ensures
            r == get_ray_s(*self, i as int, j as int, old(rng).state).0,
            final(rng).state == get_ray_s(*self, i as int, j as int, old(rng).state).1,
    {
        let px: i64 = rng.next_unit() - 32768;
        let py: i64 = rng.next_unit() - 32768;
        let offset: Vector = self.pixel_delta_u.scale(px).add(self.pixel_delta_v.scale(py));
        let pixel_center: Point = self
            .pixel_00_loc
            .add(self.pixel_delta_u.scale(crate::fixed::fx_of_usize(i)))
            .add(self.pixel_delta_v.scale(crate::fixed::fx_of_usize(j)));
        let pixel_sample: Point = pixel_center.add(offset);
        let origin: Point = if self.defocus_angle <= 0 {
            self.center
        } else {
            self.defocus_disk_sample(rng)
        };
        let direct: Vector = pixel_sample.sub(origin);
        let time: i64 = rng.next_unit();
        Ray { origin, direct, time }
    }

    /// A lens-disk origin for depth of field.
    fn defocus_disk_sample(&self, rng: &mut Rng) -> (r: Point)
        ensures
            ({
                let dd = disk_draw_s(old(rng).state, 64);
                r == vadd_s(
                    vadd_s(self.center, vscale_s(self.defocus_disk_u, dd.0.x)),
                    vscale_s(self.defocus_disk_v, dd.0.y),
                ) && final(rng).state == dd.1
            }),
    {
        let p: Vector = random_in_unit_disk(rng);
        self.center.add(self.defocus_disk_u.scale(p.x)).add(self.defocus_disk_v.scale(p.y))
    }

    /// The color carried by one ray through the scene.
    pub fn ray_color(
        ray: &Ray,
        world: &Hittable,
        materials: &Vec<Material>,
        background: Color,
        depth: usize,
        rng: &mut Rng,
    ) -> (c: Color)
        ensures
            c == ray_color_s(*ray, *world, materials@, background, depth as nat, old(rng).state).0,
            final(rng).state == ray_color_s(
                *ray,
                *world,
                materials@,
                background,
                depth as nat,
                old(rng).state,
            ).1,
        decreases depth,
    {
        if depth == 0 {
            return Vec3 { x: 0, y: 0, z: 0 };
        }
        match world.hit(ray, Interval { min: 66, max: FX_SAT }) {
            None => background,
            Some(hit) => {
                if hit.mat >= materials.len() {
                    return Vec3 { x: 0, y: 0, z: 0 };
                }
                let info = materials[hit.mat].hit_info(ray, &hit, rng);
                let scat_color: Color = match info.scatter {
                    Some(pair) => {
                        let rc = Self::ray_color(
                            &pair.1,
                            world,
                            materials,
                            background,
                            depth - 1,
                            rng,
                        );
                        rc.mul(pair.0)
                    },
                    None => Vec3 { x: 0, y: 0, z: 0 },
                };
                match info.emit {
                    Some(e) => scat_color.add(e),
                    None => scat_color,
                }
            },
        }
    }

    /// One row of pixels, from the row's own random stream.
    pub fn render_row(
        &self,
        world: &Hittable,
        materials: &Vec<Material>,
        j: usize,
        seed: u64,
    ) -> (row: Vec<Color>)
        ensures
            row@ == row_colors_s(*self, *world, materials@, j as int, seed),
    {
        let mut rng = Rng::from_seed(row_seed(seed, j));
        let mut row: Vec<Color> = Vec::new();
        let mut i: usize = 0;
        while i < self.image_width
            invariant
                i <= self.image_width,
                (row@, rng.state) == row_upto_s(
                    *self,
                    *world,
                    materials@,
                    j as int,
                    seed,
                    i as nat,
                ),
            decreases self.image_width - i,
        {
            let ghost pixel_start: u64 = rng.state;
            let mut color: Color = Vec3 { x: 0, y: 0, z: 0 };
            let mut k: usize = 0;
            while k < self.samples_per_pixel
                invariant
                    k <= self.samples_per_pixel,
                    (color, rng.state) == sample_sum_s(
                        *self,
                        *world,
                        materials@,
                        i as int,
                        j as int,
                        k as nat,
                        pixel_start,
                    ),
                decreases self.samples_per_pixel - k,
            {
                let ray = self.get_ray(i, j, &mut rng);
                let c = Self::ray_color(
                    &ray,
                    world,
                    materials,
                    self.background,
                    self.max_depth,
                    &mut rng,
                );
                color = color.add(c);
                k = k + 1;
            }
            let averaged: Color = color.div_by(crate::fixed::fx_of_usize(self.samples_per_pixel));
            row.push(averaged);
            i = i + 1;
        }
        row
    }

    /// The full render: every row computed in parallel from its own
    /// stream, then assembled into the text image format. The output
    /// is a function of the scene, the camera and the seed alone, so
    /// two renders from one seed are byte-for-byte identical.
    pub fn render(
        &self,
        world: &Hittable,
        materials: &Vec<Material>,
        seed: u64,
    ) -> (out: Vec<u8>)
        ensures
            out@ == render_bytes_s(*self, *world, materials@, seed),
    {
        let rows = par_render_rows(self, world, materials, seed);
        let out = image_to_text(rows, self.image_width, self.image_height);
        proof {
            assert(rows_views_s(rows@) =~= Seq::new(
                self.image_height as nat,
                |j: int| row_colors_s(*self, *world, materials@, j, seed),
            ));
        }
        out
    }
}

/// One finished row of pixels.
pub type PixelRow = Vec<Color>;

/// The rows of a pixel grid as sequences.
pub open spec fn rows_views_s(rows: Seq<PixelRow>) -> Seq<Seq<Color>> {
    rows.map_values(|r: PixelRow| r@)
}

/// The full text image over a grid of pixel rows.
pub open spec fn image_text_s(rows: Seq<PixelRow>, width: usize, height: usize) -> Seq<u8> {
    header_s(width, height) + image_bytes_s(rows_views_s(rows))
}

/// Assemble the text image: the header, then every row's pixels as
/// text lines, top row first.
fn image_to_text(grid: Vec<PixelRow>, width: usize, height: usize) -> (out: Vec<u8>)
    ensures
        out@ == image_text_s(grid@, width, height),
{
    let ghost all_rows: Seq<Seq<Color>> = rows_views_s(grid@);
    let mut out: Vec<u8> = Vec::new();
    out.push(80);
    out.push(51);
    out.push(10);
    push_dec_usize(&mut out, width);
    out.push(32);
    push_dec_usize(&mut out, height);
    out.push(10);
    push_dec_usize(&mut out, 255);
    out.push(10);
    proof {
        assert(out@ =~= header_s(width, height));
    }
    let mut j: usize = 0;
    while j < grid.len()
        invariant
            j <= grid@.len(),
            all_rows == rows_views_s(grid@),
            out@ == header_s(width, height) + image_bytes_s(all_rows.take(j as int)),
        decreases grid@.len() - j,
    {
        let row = &grid[j];
        let mut i: usize = 0;
        while i < row.len()
            invariant
                i <= row@.len(),
                j < grid@.len(),
                all_rows == rows_views_s(grid@),
                row@ == all_rows[j as int],
                out@ == (header_s(width, height) + image_bytes_s(all_rows.take(j as int)) +
                    row_bytes_s(row@.take(i as int))),
            decreases row@.len() - i,
        {
            write_color(&mut out, row[i]);
            proof {
                assert(row@.take(i as int + 1).drop_last() =~= row@.take(i as int));
                assert(row@.take(i as int + 1).last() == row@[i as int]);
                assert(out@ =~= header_s(width, height) + image_bytes_s(all_rows.take(j as int))
                    + row_bytes_s(row@.take(i as int + 1)));
            }
            i = i + 1;
        }
        proof {
            assert(row@.take(row@.len() as int) =~= row@);
            assert(all_rows.take(j as int + 1).drop_last() =~= all_rows.take(j as int));
            assert(all_rows.take(j as int + 1).last() == all_rows[j as int]);
            assert(out@ =~= header_s(width, height) + image_bytes_s(all_rows.take(j as int + 1)));
        }
        j = j + 1;
    }
    proof {
        assert(all_rows.take(all_rows.len() as int) =~= all_rows);
    }
    out
}

/// Rendering is reproducible: the output bytes are a pure function of
/// the camera, the scene, the materials and the seed, so two renders
/// of one scene from one seed are byte-for-byte identical.
pub proof fn lemma_render_deterministic(
    cam: Camera,
    world: Hittable,
    mats: Seq<Material>,
    seed: u64,
    out1: Seq<u8>,
    out2: Seq<u8>,
)
    requires
        out1 == render_bytes_s(cam, world, mats, seed),
        out2 == render_bytes_s(cam, world, mats, seed),
    ensures
        out1 == out2,
{
}

/// The per-row random stream's starting state.
fn row_seed(seed: u64, j: usize) -> (r: u64)
    ensures
        r == row_seed_s(seed, j as int),
{
    proof {
        crate::fixed::lemma_mul_bound(
            j as int,
            ROW_STRIDE as int,
            0xFFFF_FFFF_FFFF_FFFF,
            0xFFFF_FFFF_FFFF_FFFF,
        );
    }
    let m: u128 = (j as u128 * ROW_STRIDE as u128) % 0x1_0000_0000_0000_0000;
    let s: u128 = ((seed as u128) + m) % 0x1_0000_0000_0000_0000;
    s as u64
}

/// Relies on rayon's indexed parallel iterator: mapping each row index
/// and collecting yields one entry per index, in index order.
#[verifier::external_body]
fn par_render_rows(
    cam: &Camera,
    world: &Hittable,
    materials: &Vec<Material>,
    seed: u64,
) -> (rows: Vec<Vec<Color>>)
    ensures
        rows@.len() == cam.image_height,
        forall|j: int|
            0 <= j < rows@.len() ==> rows@[j]@ == row_colors_s(
                *cam,
                *world,
                materials@,
                j,
                seed,
            ),
{
    (0..cam.image_height)
        .into_par_iter()
        .map(|j| cam.render_row(world, materials, j, seed))
        .collect()
}

} // verus!
