use raytracing::fixed::{FX_ONE, FX_SAT};
use raytracing::hittable::aabb::AABB;
use raytracing::hittable::instances::{Rotate, Translate};
use raytracing::hittable::interval::Interval;
use raytracing::hittable::quad::Quad;
use raytracing::hittable::sphere::Sphere;
use raytracing::hittable::{Hittable, HittableList};
use raytracing::ray::Ray;
use raytracing::fixed::{fadd, fmul, fsub};
use raytracing::time_utils::{Linear, Movement, Unchanging};
use raytracing::trig::{cos_fx, deg_to_rad, sin_fx};
use raytracing::units::TexCoord;
use raytracing::vec3::Vec3;

const ONE: i64 = 65536;

fn v(x: i64, y: i64, z: i64) -> Vec3 {
    Vec3 { x, y, z }
}

fn unit_sphere_half() -> Sphere {
    Sphere::new(Movement::Unchanging(Unchanging(v(0, 0, 0))), ONE / 2, 0)
}

#[test]
fn interval_containment() {
    let i = Interval { min: 0, max: ONE };
    assert!(i.contains(0) && i.contains(ONE) && i.contains(ONE / 2));
    assert!(!i.surrounds(0) && !i.surrounds(ONE) && i.surrounds(ONE / 2));
    assert_eq!(i.clamp(2 * ONE), ONE);
    assert_eq!(i.clamp(-5), 0);
    let j = Interval { min: -ONE, max: ONE / 2 };
    let u = i.combine(j);
    assert_eq!(u, Interval { min: -ONE, max: ONE });
    assert_eq!(i.expand(ONE).min, -ONE / 2);
    assert_eq!(i.expand(ONE).max, ONE + ONE / 2);
}

#[test]
fn slab_test_accepts_a_crossing_ray() {
    let b = AABB::from_corners(v(0, 0, 0), v(ONE, ONE, ONE));
    let r = Ray { origin: v(-ONE, ONE / 2, ONE / 2), direct: v(ONE, 0, 0), time: 0 };
    assert!(b.hit(&r, Interval::positive()));
}

#[test]
fn slab_test_rejects_when_an_axis_interval_collapses() {
    let b = AABB::from_corners(v(0, 0, 0), v(ONE, ONE, ONE));
    // parallel to the box along y, origin outside the x slab
    let r = Ray { origin: v(-ONE, ONE / 2, ONE / 2), direct: v(0, ONE, 0), time: 0 };
    assert!(!b.hit(&r, Interval::positive()));
    // pointing away: the slab range lies behind the positive range
    let away = Ray { origin: v(-ONE, ONE / 2, ONE / 2), direct: v(-ONE, 0, 0), time: 0 };
    assert!(!away.direct.x.is_positive() && !b.hit(&away, Interval::positive()));
}

#[test]
fn sphere_returns_the_nearer_root() {
    let s = unit_sphere_half();
    let r = Ray { origin: v(0, 0, -2 * ONE), direct: v(0, 0, ONE), time: 0 };
    let hit = s.hit(&r, Interval::positive()).expect("ray through the sphere must hit");
    // the near intersection is at t = 1.5, not the far one at t = 2.5
    assert_eq!(hit.t, 3 * ONE / 2);
    assert_eq!(hit.p, v(0, 0, -ONE / 2));
    assert_eq!(hit.normal, v(0, 0, -ONE));
    assert!(hit.front_face);
}

#[test]
fn sphere_far_root_taken_when_inside() {
    let s = unit_sphere_half();
    // from the center both roots are +-0.5; only the far one is positive
    let r = Ray { origin: v(0, 0, 0), direct: v(0, 0, ONE), time: 0 };
    let hit = s.hit(&r, Interval::positive()).expect("must hit from inside");
    assert_eq!(hit.t, ONE / 2);
    assert!(!hit.front_face);
}

#[test]
fn sphere_miss_returns_none() {
    let s = unit_sphere_half();
    let r = Ray { origin: v(2 * ONE, 0, -2 * ONE), direct: v(0, 0, ONE), time: 0 };
    assert!(s.hit(&r, Interval::positive()).is_none());
}

#[test]
fn moving_sphere_follows_the_ray_time() {
    let s = Sphere::new(
        Movement::Linear(Linear(v(0, 0, 0), v(2 * ONE, 0, 0))),
        ONE / 2,
        0,
    );
    let at_start = Ray { origin: v(0, 0, -2 * ONE), direct: v(0, 0, ONE), time: 0 };
    assert!(s.hit(&at_start, Interval::positive()).is_some());
    let at_end = Ray { origin: v(0, 0, -2 * ONE), direct: v(0, 0, ONE), time: ONE };
    assert!(s.hit(&at_end, Interval::positive()).is_none());
    let moved = Ray { origin: v(2 * ONE, 0, -2 * ONE), direct: v(0, 0, ONE), time: ONE };
    assert!(s.hit(&moved, Interval::positive()).is_some());
}

fn xy_unit_quad() -> Quad {
    Quad::new(v(0, 0, 0), v(ONE, 0, 0), v(0, ONE, 0), 0)
}

fn quad_ray_at(x: i64, y: i64) -> Ray {
    Ray { origin: v(x, y, -ONE), direct: v(0, 0, ONE), time: 0 }
}

#[test]
fn quad_accepts_interior_and_origin_corner() {
    let q = xy_unit_quad();
    let hit = q.hit(&quad_ray_at(ONE / 2, ONE / 2), Interval::positive()).expect("interior");
    assert_eq!(hit.t, ONE);
    assert_eq!(hit.uv.u, ONE / 2);
    assert_eq!(hit.uv.v, ONE / 2);
    // alpha = beta = 0 lies inside the half-open square
    assert!(q.hit(&quad_ray_at(0, 0), Interval::positive()).is_some());
}

#[test]
fn quad_excludes_the_far_edges() {
    let q = xy_unit_quad();
    assert!(q.hit(&quad_ray_at(ONE, 0), Interval::positive()).is_none());
    assert!(q.hit(&quad_ray_at(0, ONE), Interval::positive()).is_none());
    assert!(q.hit(&quad_ray_at(ONE, ONE), Interval::positive()).is_none());
    assert!(q.hit(&quad_ray_at(-1, ONE / 2), Interval::positive()).is_none());
}

#[test]
fn adjacent_quads_share_an_edge_without_double_hits() {
    let left = xy_unit_quad();
    let right = Quad::new(v(ONE, 0, 0), v(ONE, 0, 0), v(0, ONE, 0), 0);
    let on_edge = quad_ray_at(ONE, ONE / 2);
    let hit_left = left.hit(&on_edge, Interval::positive()).is_some();
    let hit_right = right.hit(&on_edge, Interval::positive()).is_some();
    assert!(!hit_left && hit_right, "the shared edge belongs to exactly one quad");
}

#[test]
fn quad_parallel_ray_misses() {
    let q = xy_unit_quad();
    let r = Ray { origin: v(0, 0, -ONE), direct: v(ONE, 0, 0), time: 0 };
    assert!(q.hit(&r, Interval::positive()).is_none());
}

#[test]
fn new_box_builds_six_faces() {
    let faces = Quad::new_box(v(0, 0, 0), v(ONE, ONE, ONE), 3);
    assert_eq!(faces.len(), 6);
    for f in faces.iter() {
        assert_eq!(f.material, 3);
    }
    // a ray down the z axis through the box center meets a face each way
    let list = HittableList::from_vec(faces.into_iter().map(Hittable::Quad).collect());
    let r = Ray { origin: v(ONE / 2, ONE / 2, -2 * ONE), direct: v(0, 0, ONE), time: 0 };
    assert!(list.hit(&r, Interval::positive()).is_some());
}

#[test]
fn list_returns_the_nearest_hit_regardless_of_order() {
    let near = Hittable::Sphere(Sphere::new(
        Movement::Unchanging(Unchanging(v(0, 0, 0))),
        ONE / 2,
        1,
    ));
    let far = Hittable::Sphere(Sphere::new(
        Movement::Unchanging(Unchanging(v(0, 0, 3 * ONE))),
        ONE / 2,
        2,
    ));
    let r = Ray { origin: v(0, 0, -2 * ONE), direct: v(0, 0, ONE), time: 0 };
    let list_a = HittableList::from_vec(vec![near, far]);
    let hit_a = list_a.hit(&r, Interval::positive()).expect("must hit");
    assert_eq!(hit_a.mat, 1, "the nearer sphere wins");
    assert_eq!(hit_a.t, 3 * ONE / 2);
    let near2 = Hittable::Sphere(Sphere::new(
        Movement::Unchanging(Unchanging(v(0, 0, 0))),
        ONE / 2,
        1,
    ));
    let far2 = Hittable::Sphere(Sphere::new(
        Movement::Unchanging(Unchanging(v(0, 0, 3 * ONE))),
        ONE / 2,
        2,
    ));
    let list_b = HittableList::from_vec(vec![far2, near2]);
    let hit_b = list_b.hit(&r, Interval::positive()).expect("must hit");
    assert_eq!(hit_b.mat, 1, "the nearer sphere wins in either order");
    assert_eq!(hit_b.t, 3 * ONE / 2);
}

#[test]
fn translate_shifts_ray_and_hit_point() {
    let s = Hittable::Sphere(unit_sphere_half());
    let t = Translate::new(s, v(ONE, 0, 0));
    let r = Ray { origin: v(ONE, 0, -2 * ONE), direct: v(0, 0, ONE), time: 0 };
    let hit = t.hit(&r, Interval::positive()).expect("translated sphere on the shifted axis");
    assert_eq!(hit.p, v(ONE, 0, -ONE / 2));
    let miss = Ray { origin: v(0, 0, -2 * ONE), direct: v(0, 0, ONE), time: 0 };
    assert!(t.hit(&miss, Interval::positive()).is_none());
}

#[test]
fn rotate_round_trip_returns_the_point_within_epsilon() {
    for angle_deg in [15i64, 30, 45, 90, -18] {
        let inner = Hittable::Sphere(unit_sphere_half());
        let rot = Rotate::new(inner, angle_deg * ONE, 1);
        let p = v(10000, 20000, 30000);
        let q = rot.unrotate(rot.rotate(p));
        assert!((q.x - p.x).abs() <= 16, "x off by {} at {angle_deg} deg", q.x - p.x);
        assert_eq!(q.y, p.y, "the rotation axis component is exact");
        assert!((q.z - p.z).abs() <= 16, "z off by {} at {angle_deg} deg", q.z - p.z);
        // the two maps are inverses in the other order too
        let z = rot.rotate(rot.unrotate(p));
        assert!((z.x - p.x).abs() <= 16);
        assert_eq!(z.y, p.y);
        assert!((z.z - p.z).abs() <= 16);
    }
}

#[test]
fn rotation_construction_never_degrades_over_a_full_sweep() {
    for deg in -360i64..=360 {
        let inner = Hittable::Sphere(unit_sphere_half());
        let rot = Rotate::new(inner, deg * ONE, 0);
        let s = sin_fx(deg_to_rad(deg * ONE));
        let c = cos_fx(deg_to_rad(deg * ONE));
        // the validation accepts the computed pair at every whole degree
        assert_eq!(rot.sin, s, "sine replaced at {deg} deg");
        assert_eq!(rot.cos, c, "cosine replaced at {deg} deg");
        let defect = fsub(fadd(fmul(s, s), fmul(c, c)), ONE);
        assert!(defect.abs() <= 64, "identity defect {defect} at {deg} deg");
    }
}

#[test]
fn rotate_bounding_box_covers_rotated_corners() {
    let s = Hittable::Sphere(unit_sphere_half());
    let rot = Rotate::new(s, 45 * ONE, 1);
    let b = rot.bounding_box();
    // the half-radius sphere's padded box rotated 45 degrees stays inside +-1
    assert!(b.x.min >= -ONE && b.x.max <= ONE);
    assert!(b.z.min >= -ONE && b.z.max <= ONE);
    assert!(b.x.min < b.x.max && b.y.min < b.y.max && b.z.min < b.z.max);
}

#[test]
fn aabb_pad_gives_flat_axes_thickness() {
    let flat = AABB::from_corners(v(0, 0, 0), v(ONE, ONE, 0));
    assert_eq!(flat.z.min, flat.z.max);
    let padded = flat.pad();
    assert!(padded.z.max - padded.z.min >= 64);
    assert_eq!(padded.x, flat.x);
}

#[test]
fn sphere_seam_maps_the_south_pole_to_the_texture_midline() {
    // at normal (0, -1, 0) the angles are theta = 0, phi = pi, so
    // u = pi / (2 pi) lands exactly on one half
    let uv = Sphere::get_unit_sphere_uv(v(0, -ONE, 0));
    assert_eq!(uv, TexCoord { u: ONE / 2, v: 0 });
}

#[test]
fn sphere_interval_shrinking_skips_far_hits() {
    let s = unit_sphere_half();
    let r = Ray { origin: v(0, 0, -2 * ONE), direct: v(0, 0, ONE), time: 0 };
    // an upper bound below the near root hides the sphere entirely
    let tight = Interval { min: 66, max: ONE };
    assert!(s.hit(&r, tight).is_none());
    // an upper bound between the roots yields the near root only
    let mid = Interval { min: 66, max: 2 * ONE };
    assert_eq!(s.hit(&r, mid).unwrap().t, 3 * ONE / 2);
}
