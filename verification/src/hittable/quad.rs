//! Planar parallelogram primitives.

use vstd::prelude::*;

use super::aabb::AABB;
use super::interval::Interval;
use super::{hit_record_s, HitRecord};
use crate::fixed::{fdiv, fdiv_s, fsub, fsub_s, FX_ONE};
use crate::ray::{at_s, Ray};
use crate::units::{Point, TexCoord, Vector};
use crate::vec3::{cross_s, dot_s, unit_s, vadd_s, vsub_s, Vec3};

verus! {

/// A parallelogram spanned by two edge vectors from an origin corner,
/// with its plane data and bounding box cached at construction.
#[derive(Clone, Copy, Debug, PartialEq, Eq, Structural)]
pub struct Quad {
    pub q: Point,
    pub u: Vector,
    pub v: Vector,
    pub normal: Vector,
    pub d: i64,
    pub w: Vector,
    pub material: usize,
    pub aabb: AABB,
}

/// The quad built from an origin corner and two edges: unit plane
/// normal, plane offset, the planar-coordinate basis vector `w`
/// (zero for a degenerate edge pair), and the padded corner box.
pub open spec fn quad_new_s(q: Point, u: Vector, v: Vector, material: usize) -> Quad {
    let n = cross_s(u, v);
    let normal = unit_s(n);
    let nn = dot_s(n, n);
    let w = if nn == 0 {
        Vec3 { x: 0i64, y: 0i64, z: 0i64 }
    } else {
        Vec3 { x: fdiv_s(n.x, nn), y: fdiv_s(n.y, nn), z: fdiv_s(n.z, nn) }
    };
    Quad {
        q,
        u,
        v,
        normal,
        d: dot_s(normal, q),
        w,
        material,
        aabb: AABB::from_corners_s(q, vadd_s(vadd_s(q, u), v)).padded_s(),
    }
}

/// The ray parameter at which the ray meets the quad's plane.
pub open spec fn quad_plane_t_s(qd: Quad, r: Ray) -> i64 {
    fdiv_s(fsub_s(qd.d, dot_s(qd.normal, r.origin)), dot_s(qd.normal, r.direct))
}

/// The planar coordinates of a plane point relative to the quad's edges.
pub open spec fn quad_alpha_s(qd: Quad, p: Point) -> i64 {
    dot_s(qd.w, cross_s(vsub_s(p, qd.q), qd.v))
}

pub open spec fn quad_beta_s(qd: Quad, p: Point) -> i64 {
    dot_s(qd.w, cross_s(qd.u, vsub_s(p, qd.q)))
}

/// Quad intersection: a ray parallel to the plane misses; the plane
/// parameter must lie inside the query range; the planar coordinates
/// must both lie in the half-open square `[0, 1) x [0, 1)`.
pub open spec fn quad_hit_s(qd: Quad, r: Ray, ray_t: Interval) -> Option<HitRecord> {
    let denom = dot_s(qd.normal, r.direct);
    if denom == 0 {
        None
    } else {
        let t = quad_plane_t_s(qd, r);
        if !(ray_t.min <= t <= ray_t.max) {
            None
        } else {
            let p = at_s(r, t);
            let alpha = quad_alpha_s(qd, p);
            let beta = quad_beta_s(qd, p);
            if !(0 <= alpha < FX_ONE) || !(0 <= beta < FX_ONE) {
                None
            } else {
                Some(
                    hit_record_s(
                        r,
                        p,
                        qd.normal,
                        TexCoord { u: alpha, v: beta },
                        qd.material,
                        t,
                    ),
                )
            }
        }
    }
}

impl Quad {
    pub fn new(q: Point, u: Vector, v: Vector, material: usize) -> (r: Quad)
        ensures
            r == quad_new_s(q, u, v, material),
    {
        let n: Vector = u.cross(v);
        let normal: Vector = n.unit_vector();
        let d: i64 = normal.dot(q);
        let nn: i64 = n.dot(n);
        let w: Vector = if nn == 0 {
            Vec3 { x: 0, y: 0, z: 0 }
        } else {
            Vec3 { x: fdiv(n.x, nn), y: fdiv(n.y, nn), z: fdiv(n.z, nn) }
        };
        let aabb: AABB = AABB::from_corners(q, q.add(u).add(v)).pad();
        Quad { q, u, v, normal, d, w, material, aabb }
    }

    /// The six faces of the axis-aligned box with opposite corners `a`
    /// and `b`, each a quad, winding as the box construction dictates.
    pub fn new_box(a: Point, b: Point, material: usize) -> (r: [Quad; 6])
        ensures
            ({
                let lo = AABB::from_corners_s(a, b);
                let min = Vec3 { x: lo.x.min, y: lo.y.min, z: lo.z.min };
                let max = Vec3 { x: lo.x.max, y: lo.y.max, z: lo.z.max };
                let dx = fsub_s(max.x, min.x);
                let dy = fsub_s(max.y, min.y);
                let dz = fsub_s(max.z, min.z);
                let ex = Vec3 { x: dx, y: 0i64, z: 0i64 };
                let ey = Vec3 { x: 0i64, y: dy, z: 0i64 };
                let ez = Vec3 { x: 0i64, y: 0i64, z: dz };
                &&& r[0] == quad_new_s(min, ez, ey, material)
                &&& r[1] == quad_new_s(Vec3 { x: max.x, y: min.y, z: min.z }, ey, ez, material)
                &&& r[2] == quad_new_s(min, ex, ez, material)
                &&& r[3] == quad_new_s(Vec3 { x: min.x, y: max.y, z: min.z }, ez, ex, material)
                &&& r[4] == quad_new_s(min, ey, ex, material)
                &&& r[5] == quad_new_s(Vec3 { x: min.x, y: min.y, z: max.z }, ex, ey, material)
            }),
    {
        let lo: AABB = AABB::from_corners(a, b);
        let min = Vec3 { x: lo.x.min, y: lo.y.min, z: lo.z.min };
        let max = Vec3 { x: lo.x.max, y: lo.y.max, z: lo.z.max };
        let dx: i64 = fsub(max.x, min.x);
        let dy: i64 = fsub(max.y, min.y);
        let dz: i64 = fsub(max.z, min.z);
        let ex = Vec3 { x: dx, y: 0, z: 0 };
        let ey = Vec3 { x: 0, y: dy, z: 0 };
        let ez = Vec3 { x: 0, y: 0, z: dz };
        [
            Quad::new(min, ez, ey, material),
            Quad::new(Vec3 { x: max.x, y: min.y, z: min.z }, ey, ez, material),
            Quad::new(min, ex, ez, material),
            Quad::new(Vec3 { x: min.x, y: max.y, z: min.z }, ez, ex, material),
            Quad::new(min, ey, ex, material),
            Quad::new(Vec3 { x: min.x, y: min.y, z: max.z }, ex, ey, material),
        ]
    }

    /// The cached bounding box.
    pub fn bounding_box(&self) -> (r: AABB)
        ensures
            r == self.aabb,
    {
        self.aabb
    }

    /// The intersection with `t` inside `ray_t` and planar coordinates
    /// inside the half-open unit square.
    pub fn hit(&self, ray: &Ray, ray_t: Interval) -> (r: Option<HitRecord>)
        ensures
            r == quad_hit_s(*self, *ray, ray_t),
    {
        let denom: i64 = self.normal.dot(ray.direct);
        if denom == 0 {
            return None;
        }
        let t: i64 = fdiv(fsub(self.d, self.normal.dot(ray.origin)), denom);
        if !ray_t.contains(t) {
            return None;
        }
        let p: Point = ray.at(t);
        let planar_hit: Vector = p.sub(self.q);
        let alpha: i64 = self.w.dot(planar_hit.cross(self.v));
        let beta: i64 = self.w.dot(self.u.cross(planar_hit));
        if !(0 <= alpha && alpha < FX_ONE) || !(0 <= beta && beta < FX_ONE) {
            return None;
        }
        Some(HitRecord::new(ray, p, self.normal, TexCoord { u: alpha, v: beta }, self.material, t))
    }
}

/// The acceptance square is half-open: a plane point whose planar
/// coordinate reaches 1 (or falls below 0) is no hit, so two quads
/// that share an edge cannot both claim a point of that edge.
pub proof fn lemma_quad_half_open(qd: Quad, r: Ray, ray_t: Interval)
    ensures
        ({
            let p = at_s(r, quad_plane_t_s(qd, r));
            quad_alpha_s(qd, p) >= FX_ONE || quad_alpha_s(qd, p) < 0 || quad_beta_s(qd, p)
                >= FX_ONE || quad_beta_s(qd, p) < 0 ==> quad_hit_s(qd, r, ray_t) matches None
        }),
{
}

} // verus!
