use raytracing::fixed::{FX_ONE, FX_SAT};
use raytracing::hittable::aabb::AABB;
use raytracing::hittable::interval::Interval;
use raytracing::hittable::sphere::Sphere;
use raytracing::hittable::{HitRecord, Hittable, HittableList};
use raytracing::ray::Ray;
use raytracing::rng::Rng;
use raytracing::time_utils::{Linear, Movement, Unchanging};
use raytracing::units::{random_in_unit_disk, random_in_unit_sphere, random_on_hemisphere, TexCoord};
use raytracing::vec3::Vec3;

const ONE: i64 = 65536;

fn v(x: i64, y: i64, z: i64) -> Vec3 {
    Vec3 { x, y, z }
}

#[test]
fn vec3_componentwise_operations() {
    let a = Vec3::new(ONE, 2 * ONE, 3 * ONE);
    let b = Vec3::new(2 * ONE, -ONE, ONE / 2);
    assert_eq!(a.add(b), v(3 * ONE, ONE, 3 * ONE + ONE / 2));
    assert_eq!(a.sub(b), v(-ONE, 3 * ONE, 5 * ONE / 2));
    assert_eq!(a.neg(), v(-ONE, -2 * ONE, -3 * ONE));
    assert_eq!(a.mul(b), v(2 * ONE, -2 * ONE, 3 * ONE / 2));
    assert_eq!(a.scale(2 * ONE), v(2 * ONE, 4 * ONE, 6 * ONE));
    // 1*2 + 2*(-1) + 3*0.5 = 1.5
    assert_eq!(a.dot(b), 3 * ONE / 2);
    assert_eq!(a.max_element(), 3 * ONE);
    assert_eq!(a.axis(0), ONE);
    assert_eq!(a.axis(2), 3 * ONE);
}

#[test]
fn vec3_cross_follows_the_right_hand_rule() {
    let x = v(ONE, 0, 0);
    let y = v(0, ONE, 0);
    assert_eq!(x.cross(y), v(0, 0, ONE));
    assert_eq!(y.cross(x), v(0, 0, -ONE));
}

#[test]
fn vec3_length_and_unit() {
    let a = v(3 * ONE, 4 * ONE, 0);
    assert_eq!(a.length(), 5 * ONE);
    let u = a.unit_vector();
    assert_eq!(u, v(39321, 52428, 0));
    assert_eq!(Vec3::zero().unit_vector(), Vec3::zero());
}

#[test]
fn hit_record_flips_the_normal_onto_the_incoming_side() {
    let ray = Ray { origin: v(0, 0, -ONE), direct: v(0, 0, ONE), time: 0 };
    let uv = TexCoord { u: 0, v: 0 };
    let facing = HitRecord::new(&ray, v(0, 0, 0), v(0, 0, -ONE), uv, 0, ONE);
    assert!(facing.front_face);
    assert_eq!(facing.normal, v(0, 0, -ONE));
    let behind = HitRecord::new(&ray, v(0, 0, 0), v(0, 0, ONE), uv, 0, ONE);
    assert!(!behind.front_face);
    assert_eq!(behind.normal, v(0, 0, -ONE), "the stored normal opposes the ray");
}

#[test]
fn interval_constants_and_aabb_accessors() {
    let e = Interval::empty();
    assert!(e.min > e.max);
    let u = Interval::universe();
    assert!(u.contains(0) && u.contains(FX_SAT) && u.contains(-FX_SAT));
    let p = Interval::positive();
    assert!(!p.contains(0) && p.contains(ONE));
    let b = AABB::new(
        Interval { min: 0, max: ONE },
        Interval { min: ONE, max: 2 * ONE },
        Interval { min: 2 * ONE, max: 3 * ONE },
    );
    let arr = b.as_array();
    assert_eq!(arr[0], b.x);
    assert_eq!(arr[1], b.y);
    assert_eq!(arr[2], b.z);
    assert_eq!(b.axis(1), b.y);
    let c = b.to_corners();
    assert_eq!(c[0], v(0, ONE, 2 * ONE));
    assert_eq!(c[7], v(ONE, 2 * ONE, 3 * ONE));
    let moved = b.offset(v(ONE, 0, 0));
    assert_eq!(moved.x, Interval { min: ONE, max: 2 * ONE });
    let grown = b.insert(v(-ONE, 0, 0));
    assert_eq!(grown.x.min, -ONE);
}

#[test]
fn movement_positions_and_boxes() {
    let still = Movement::Unchanging(Unchanging(v(ONE, 2 * ONE, 3 * ONE)));
    assert_eq!(still.get_at_time(0), v(ONE, 2 * ONE, 3 * ONE));
    assert_eq!(still.get_at_time(ONE), v(ONE, 2 * ONE, 3 * ONE));
    let gliding = Movement::Linear(Linear(v(0, 0, 0), v(2 * ONE, 0, 0)));
    assert_eq!(gliding.get_at_time(0), v(0, 0, 0));
    assert_eq!(gliding.get_at_time(ONE / 2), v(ONE, 0, 0));
    assert_eq!(gliding.get_at_time(ONE), v(2 * ONE, 0, 0));
    let swept = gliding.bounding_box();
    assert_eq!(swept.x, Interval { min: 0, max: 2 * ONE });
}

#[test]
fn list_maintenance_keeps_the_cached_box() {
    let mut list = HittableList::new();
    assert!(list.bounding_box().x.min > list.bounding_box().x.max);
    list.add(Hittable::Sphere(Sphere::new(
        Movement::Unchanging(Unchanging(v(0, 0, 0))),
        ONE,
        0,
    )));
    let b = list.bounding_box();
    assert_eq!(b.x, Interval { min: -ONE, max: ONE });
    list.clear();
    assert!(list.bounding_box().x.min > list.bounding_box().x.max);
}

#[test]
fn rejection_samples_land_inside_their_shapes() {
    let mut rng = Rng::from_seed(31);
    for _ in 0..50 {
        let s = random_in_unit_sphere(&mut rng);
        assert!(s.dot(s) < FX_ONE);
        let d = random_in_unit_disk(&mut rng);
        assert!(d.dot(d) < FX_ONE);
        assert_eq!(d.z, 0);
        let n = v(0, ONE, 0);
        let h = random_on_hemisphere(&mut rng, &n);
        assert!(h.dot(n) >= 0);
    }
}

#[test]
fn sphere_bounding_box_pads_by_the_radius() {
    let s = Sphere::new(Movement::Unchanging(Unchanging(v(ONE, 0, 0))), ONE / 2, 0);
    let b = s.bounding_box();
    assert_eq!(b.x, Interval { min: ONE / 2, max: 3 * ONE / 2 });
    assert_eq!(b.y, Interval { min: -ONE / 2, max: ONE / 2 });
}
