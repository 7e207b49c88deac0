//! Spheres, possibly moving over the ray time.

use vstd::prelude::*;

use super::aabb::AABB;
use super::interval::Interval;
use super::{hit_record_s, HitRecord};
use crate::fixed::{
    fadd, fadd_s, fdiv, fdiv_s, fmul, fmul_s, fneg, fneg_s, fsqrt, fsqrt_s, fsub, fsub_s,
    lemma_fdiv_mono, lemma_fsqrt_nonneg,
};
use crate::ray::{at_s, Ray};
use crate::time_utils::{at_time_s, Movement};
use crate::trig::{acos_s, acos_fx, atan2_s, atan2_fx, PI_FX, TWO_PI_FX};
use crate::units::{Point, TexCoord, Vector};
use crate::vec3::{dot_s, vsub_s, Vec3};

verus! {

/// A sphere with a movement strategy for its center, a radius, and a
/// material table index.
#[derive(Clone, Copy, Debug, PartialEq, Eq, Structural)]
pub struct Sphere {
    pub center: Movement,
    pub radius: i64,
    pub material: usize,
    pub aabb: AABB,
}

/// Texture coordinates of a point on the unit sphere, from the
/// spherical angles of its outward normal.
pub open spec fn sphere_uv_s(normal: Vector) -> TexCoord {
    let theta = acos_s(fneg_s(normal.y));
    let phi = fadd_s(atan2_s(fneg_s(normal.z), normal.x), PI_FX);
    TexCoord { u: fdiv_s(phi, TWO_PI_FX), v: fdiv_s(theta, PI_FX) }
}

/// The quadratic's `a` coefficient: the direction's squared length.
pub open spec fn sphere_a_s(r: Ray) -> i64 {
    dot_s(r.direct, r.direct)
}

/// The quadratic's `half_b` coefficient.
pub open spec fn sphere_half_b_s(center: Point, r: Ray) -> i64 {
    dot_s(vsub_s(r.origin, center), r.direct)
}

/// The discriminant `half_b^2 - a c` of the sphere quadratic.
pub open spec fn sphere_discr_s(center: Point, radius: i64, r: Ray) -> i64 {
    let oc = vsub_s(r.origin, center);
    let c = fsub_s(dot_s(oc, oc), fmul_s(radius, radius));
    fsub_s(fmul_s(sphere_half_b_s(center, r), sphere_half_b_s(center, r)), fmul_s(
        sphere_a_s(r),
        c,
    ))
}

/// The smaller quadratic root `(-half_b - sqrt(discr)) / a`.
pub open spec fn sphere_root1_s(center: Point, radius: i64, r: Ray) -> i64 {
    fdiv_s(
        fsub_s(fneg_s(sphere_half_b_s(center, r)), fsqrt_s(sphere_discr_s(center, radius, r))),
        sphere_a_s(r),
    )
}

/// The larger quadratic root `(-half_b + sqrt(discr)) / a`.
pub open spec fn sphere_root2_s(center: Point, radius: i64, r: Ray) -> i64 {
    fdiv_s(
        fadd_s(fneg_s(sphere_half_b_s(center, r)), fsqrt_s(sphere_discr_s(center, radius, r))),
        sphere_a_s(r),
    )
}

/// The full sphere intersection at a resolved center: a negative
/// discriminant or a degenerate ray or radius misses; otherwise the
/// first root strictly inside the range is taken, the smaller first.
pub open spec fn sphere_hit_core_s(
    center: Point,
    radius: i64,
    material: usize,
    r: Ray,
    ray_t: Interval,
) -> Option<HitRecord> {
    let a = sphere_a_s(r);
    let discr = sphere_discr_s(center, radius, r);
    if discr < 0 || a <= 0 || radius == 0 {
        None
    } else {
        let root1 = sphere_root1_s(center, radius, r);
        let root2 = sphere_root2_s(center, radius, r);
        let t = if ray_t.min < root1 && root1 < ray_t.max {
            Some(root1)
        } else if ray_t.min < root2 && root2 < ray_t.max {
            Some(root2)
        } else {
            None
        };
        match t {
            None => None,
            Some(t) => {
                let p = at_s(r, t);
                let outward = Vec3 {
                    x: fdiv_s(fsub_s(p.x, center.x), radius),
                    y: fdiv_s(fsub_s(p.y, center.y), radius),
                    z: fdiv_s(fsub_s(p.z, center.z), radius),
                };
                Some(hit_record_s(r, p, outward, sphere_uv_s(outward), material, t))
            },
        }
    }
}

/// Sphere intersection with the center resolved at the ray's time.
pub open spec fn sphere_hit_s(s: Sphere, r: Ray, ray_t: Interval) -> Option<HitRecord> {
    sphere_hit_core_s(at_time_s(s.center, r.time), s.radius, s.material, r, ray_t)
}

impl Sphere {
    /// A sphere over a movement strategy; the cached box is the swept
    /// center box padded by the radius on every side.
    pub fn new(center: Movement, radius: i64, material: usize) -> (r: Sphere)
        ensures
            r.center == center,
            r.radius == radius,
            r.material == material,
            r.aabb == crate::time_utils::swept_box_s(center).expanded_s(fadd_s(radius, radius)),
    {
        let aabb = center.bounding_box().expand(fadd(radius, radius));
        Sphere { center, radius, material, aabb }
    }

    /// The cached time-swept bounding box.
    pub fn bounding_box(&self) -> (r: AABB)
        ensures
            r == self.aabb,
    {
        self.aabb
    }

    /// The nearest intersection with `t` strictly inside `ray_t`.
    pub fn hit(&self, ray: &Ray, ray_t: Interval) -> (r: Option<HitRecord>)
        ensures
            r == sphere_hit_s(*self, *ray, ray_t),
    {
        let center = self.center.get_at_time(ray.time);
        Self::hit_internal(center, self.radius, self.material, ray, ray_t)
    }

    /// Intersection against a resolved center.
    pub fn hit_internal(
        center: Point,
        radius: i64,
        material: usize,
        ray: &Ray,
        ray_t: Interval,
    ) -> (r: Option<HitRecord>)
        ensures
            r == sphere_hit_core_s(center, radius, material, *ray, ray_t),
    {
        let oc = ray.origin.sub(center);
        let a: i64 = ray.direct.length_squared();
        let half_b: i64 = oc.dot(ray.direct);
        let c: i64 = fsub(oc.dot(oc), fmul(radius, radius));
        let discr: i64 = fsub(fmul(half_b, half_b), fmul(a, c));
        if discr < 0 || a <= 0 || radius == 0 {
            return None;
        }
        let sqrtd: i64 = fsqrt(discr);
        let root1: i64 = fdiv(fsub(fneg(half_b), sqrtd), a);
        let root2: i64 = fdiv(fadd(fneg(half_b), sqrtd), a);
        let t: i64 = if ray_t.surrounds(root1) {
            root1
        } else if ray_t.surrounds(root2) {
            root2
        } else {
            return None;
        };
        let p = ray.at(t);
        let outward = Vec3 {
            x: fdiv(fsub(p.x, center.x), radius),
            y: fdiv(fsub(p.y, center.y), radius),
            z: fdiv(fsub(p.z, center.z), radius),
        };
        Some(HitRecord::new(ray, p, outward, Self::get_unit_sphere_uv(outward), material, t))
    }

    /// Texture coordinates from the spherical angles of the normal.
    pub fn get_unit_sphere_uv(normal: Vector) -> (r: TexCoord)
        ensures
            r == sphere_uv_s(normal),
    {
        let theta: i64 = acos_fx(fneg(normal.y));
        let phi: i64 = fadd(atan2_fx(fneg(normal.z), normal.x), PI_FX);
        TexCoord { u: fdiv(phi, TWO_PI_FX), v: fdiv(theta, PI_FX) }
    }
}

/// The two quadratic roots are ordered: the root built from
/// `-half_b - sqrt(discr)` never exceeds the one from `-half_b + sqrt(discr)`.
pub proof fn lemma_sphere_roots_ordered(center: Point, radius: i64, r: Ray)
    requires
        sphere_a_s(r) > 0,
    ensures
        sphere_root1_s(center, radius, r) <= sphere_root2_s(center, radius, r),
{
    let hb = sphere_half_b_s(center, r);
    let d = sphere_discr_s(center, radius, r);
    lemma_fsqrt_nonneg(d);
    lemma_fdiv_mono(
        fsub_s(fneg_s(hb), fsqrt_s(d)),
        fadd_s(fneg_s(hb), fsqrt_s(d)),
        sphere_a_s(r),
    );
}

/// A ray through two intersection points strictly inside the query
/// range is answered with the smaller parameter of the two; a ray
/// whose discriminant is negative is answered with no hit at all.
pub proof fn lemma_sphere_nearest_hit(
    center: Point,
    radius: i64,
    material: usize,
    r: Ray,
    ray_t: Interval,
)
    ensures
        ({
            let root1 = sphere_root1_s(center, radius, r);
            let root2 = sphere_root2_s(center, radius, r);
            sphere_discr_s(center, radius, r) >= 0 && sphere_a_s(r) > 0 && radius != 0
                && ray_t.min < root1 < ray_t.max && ray_t.min < root2 < ray_t.max ==> match sphere_hit_core_s(
                center,
                radius,
                material,
                r,
                ray_t,
            ) {
                Some(h) => h.t == if root1 <= root2 {
                    root1
                } else {
                    root2
                },
                None => false,
            }
        }),
        sphere_discr_s(center, radius, r) < 0 ==> sphere_hit_core_s(
            center,
            radius,
            material,
            r,
            ray_t,
        ) matches None,
{
    if sphere_a_s(r) > 0 {
        lemma_sphere_roots_ordered(center, radius, r);
    }
}

} // verus!
