use raytracing::hittable::bvh::BvhNode;
use raytracing::hittable::interval::Interval;
use raytracing::hittable::sphere::Sphere;
use raytracing::hittable::{Hittable, HittableList};
use raytracing::ray::Ray;
use raytracing::rng::Rng;
use raytracing::time_utils::{Movement, Unchanging};
use raytracing::vec3::Vec3;

const ONE: i64 = 65536;

fn v(x: i64, y: i64, z: i64) -> Vec3 {
    Vec3 { x, y, z }
}

fn ball(x: i64, y: i64, z: i64, r: i64, mat: usize) -> Hittable {
    Hittable::Sphere(Sphere::new(Movement::Unchanging(Unchanging(v(x, y, z))), r, mat))
}

fn grid_scene() -> Vec<Hittable> {
    let mut objects = Vec::new();
    let mut mat: usize = 0;
    for gx in -2i64..3 {
        for gz in -2i64..3 {
            objects.push(ball(gx * 3 * ONE, 0, gz * 3 * ONE, ONE / 2, mat));
            mat += 1;
        }
    }
    objects
}

#[test]
fn bvh_construction_keeps_two_and_three_element_shapes() {
    let pair = BvhNode::new(vec![ball(0, 0, 0, ONE, 0), ball(3 * ONE, 0, 0, ONE, 1)]);
    match (&*pair.l, &*pair.r) {
        (Hittable::Sphere(a), Hittable::Sphere(b)) => {
            assert_eq!(a.material, 0);
            assert_eq!(b.material, 1);
        }
        _ => panic!("a two-element tree is one pair node over the two objects"),
    }
    let triple = BvhNode::new(vec![
        ball(0, 0, 0, ONE, 0),
        ball(3 * ONE, 0, 0, ONE, 1),
        ball(6 * ONE, 0, 0, ONE, 2),
    ]);
    match (&*triple.l, &*triple.r) {
        (Hittable::Bvh(inner), Hittable::Sphere(c)) => {
            assert_eq!(c.material, 2);
            match (&*inner.l, &*inner.r) {
                (Hittable::Sphere(a), Hittable::Sphere(b)) => {
                    assert_eq!(a.material, 0);
                    assert_eq!(b.material, 1);
                }
                _ => panic!("the inner node pairs the first two objects"),
            }
        }
        _ => panic!("a three-element tree nests a pair under the root"),
    }
}

#[test]
fn bvh_box_is_the_union_of_children() {
    let node = BvhNode::new(vec![ball(0, 0, 0, ONE, 0), ball(5 * ONE, 0, 0, ONE, 1)]);
    let b = node.bounding_box();
    assert!(b.x.min <= -ONE && b.x.max >= 6 * ONE);
}

#[test]
fn bvh_agrees_with_linear_scan_on_many_rays() {
    let tree = Hittable::Bvh(BvhNode::new(grid_scene()));
    let flat = Hittable::List(HittableList::from_vec(grid_scene()));
    let mut rng = Rng::from_seed(2024);
    let mut hits: usize = 0;
    for _ in 0..400 {
        let origin = v(
            rng.next_symmetric() * 12,
            rng.next_symmetric() * 12,
            rng.next_symmetric() * 12,
        );
        let target = v(rng.next_symmetric() * 8, 0, rng.next_symmetric() * 8);
        let direct = target.sub(origin);
        let ray = Ray { origin, direct, time: 0 };
        let a = tree.hit(&ray, Interval::positive());
        let b = flat.hit(&ray, Interval::positive());
        assert_eq!(a, b, "tree and scan disagree for ray {ray:?}");
        if a.is_some() {
            hits += 1;
        }
    }
    assert!(hits > 50, "the differential test should exercise real hits, got {hits}");
}

#[test]
fn bvh_agrees_with_linear_scan_under_narrow_ranges() {
    let tree = Hittable::Bvh(BvhNode::new(grid_scene()));
    let flat = Hittable::List(HittableList::from_vec(grid_scene()));
    let ray = Ray { origin: v(-9 * ONE, 0, 0), direct: v(ONE, 0, 0), time: 0 };
    for max in [ONE, 4 * ONE, 7 * ONE, 20 * ONE] {
        let t = Interval { min: 66, max };
        assert_eq!(tree.hit(&ray, t), flat.hit(&ray, t));
    }
}

#[test]
fn bvh_prunes_nothing_a_scan_would_find() {
    let tree = Hittable::Bvh(BvhNode::new(grid_scene()));
    let flat = Hittable::List(HittableList::from_vec(grid_scene()));
    // axis-aligned rays straight down each grid column
    for gx in -2i64..3 {
        for gz in -2i64..3 {
            let ray = Ray {
                origin: v(gx * 3 * ONE, 5 * ONE, gz * 3 * ONE),
                direct: v(0, -ONE, 0),
                time: 0,
            };
            let a = tree.hit(&ray, Interval::positive());
            let b = flat.hit(&ray, Interval::positive());
            assert_eq!(a, b);
            assert!(a.is_some(), "a column ray must strike its sphere");
        }
    }
}
