//! Instance wrappers: translation and single-axis rotation.

use vstd::prelude::*;

use super::aabb::AABB;
use super::interval::Interval;
use super::{rotate_hit_s, translate_hit_s, HitRecord, Hittable};
use crate::fixed::{
    fadd, fadd_s, fmul, fmul_s, fsub, fsub_s, lemma_fmul_exact, lemma_mul_bound, lemma_sat64_id,
    FX_ONE,
};
use crate::ray::Ray;
use crate::trig::{cos_fx, cos_s, deg_to_rad, deg_to_rad_s, sin_fx, sin_s};
use crate::units::{Point, Vector};
use crate::vec3::{axis_s, set_axis_s, Vec3};

verus! {

/// A child shifted by a fixed offset.
pub struct Translate {
    pub object: Box<Hittable>,
    pub offset: Vector,
    pub aabb: AABB,
}

/// A child rotated about one coordinate axis by a fixed angle, held as
/// the angle's sine and cosine.
pub struct Rotate {
    pub object: Box<Hittable>,
    pub sin: i64,
    pub cos: i64,
    pub axis: usize,
    pub aabb: AABB,
}

/// The sine-cosine pair a rotation is built with: the angle's sine
/// and cosine, accepted only if their squares sum to one within a
/// small tolerance; a pair that fails the check (which the bounded
/// trigonometric error never produces) degrades to the identity
/// rotation rather than shearing geometry. Construction therefore
/// establishes the near-identity invariant unconditionally.
pub open spec fn checked_sin_cos_s(angle: i64) -> (i64, i64) {
    let s = sin_s(deg_to_rad_s(angle));
    let c = cos_s(deg_to_rad_s(angle));
    let defect = fsub_s(fadd_s(fmul_s(s, s), fmul_s(c, c)), FX_ONE);
    if -64 <= defect <= 64 {
        (s, c)
    } else {
        (0i64, FX_ONE)
    }
}

/// The forward rotation of a point about the axis: the two other
/// components are mixed by the angle's cosine and sine.
pub open spec fn rotate_s(sin: i64, cos: i64, axis: int, p: Vec3) -> Vec3 {
    let a1 = ((axis % 3) + 1) % 3;
    let a2 = ((axis % 3) + 2) % 3;
    let v1 = fsub_s(fmul_s(cos, axis_s(p, a1)), fmul_s(sin, axis_s(p, a2)));
    let v2 = fadd_s(fmul_s(sin, axis_s(p, a1)), fmul_s(cos, axis_s(p, a2)));
    set_axis_s(set_axis_s(p, a1, v1), a2, v2)
}

/// The inverse rotation: the same mixing with the sine negated.
pub open spec fn unrotate_s(sin: i64, cos: i64, axis: int, p: Vec3) -> Vec3 {
    let a1 = ((axis % 3) + 1) % 3;
    let a2 = ((axis % 3) + 2) % 3;
    let v1 = fadd_s(fmul_s(cos, axis_s(p, a1)), fmul_s(sin, axis_s(p, a2)));
    let v2 = fsub_s(fmul_s(cos, axis_s(p, a2)), fmul_s(sin, axis_s(p, a1)));
    set_axis_s(set_axis_s(p, a1, v1), a2, v2)
}

/// The child's box with every corner rotated, folded by insertion into
/// the empty box, corner by corner.
pub open spec fn rotated_box_upto_s(sin: i64, cos: i64, axis: int, b: AABB, k: int) -> AABB
    decreases k,
{
    if k <= 0 {
        AABB::empty_s()
    } else {
        rotated_box_upto_s(sin, cos, axis, b, k - 1).inserted_s(
            rotate_s(sin, cos, axis, corner_s(b, k - 1)),
        )
    }
}

/// Corner `i` of a box, bit-indexed per axis as `to_corners` lays them out.
pub open spec fn corner_s(b: AABB, i: int) -> Vec3 {
    Vec3 {
        x: if i % 2 == 0 { b.x.min } else { b.x.max },
        y: if (i / 2) % 2 == 0 { b.y.min } else { b.y.max },
        z: if (i / 4) % 2 == 0 { b.z.min } else { b.z.max },
    }
}

impl Translate {
    /// Wrap a child; the cached box is the child's box shifted.
    pub fn new(object: Hittable, offset: Vector) -> (r: Translate)
        ensures
            *r.object == object,
            r.offset == offset,
            r.aabb == object.bbox_s().offset_box_s(offset),
    {
        let aabb = object.bounding_box().offset(offset);
        Translate { object: Box::new(object), offset, aabb }
    }

    /// Intersect in the child's frame and shift the hit point back.
    pub fn hit(&self, ray: &Ray, ray_t: Interval) -> (res: Option<HitRecord>)
        ensures
            res == translate_hit_s(*self, *ray, ray_t),
        decreases *self, 1int, 0int,
    {
        let new_ray = Ray {
            origin: ray.origin.sub(self.offset),
            direct: ray.direct,
            time: ray.time,
        };
        match self.object.hit(&new_ray, ray_t) {
            Some(rec) => Some(
                HitRecord {
                    p: rec.p.add(self.offset),
                    normal: rec.normal,
                    mat: rec.mat,
                    t: rec.t,
                    uv: rec.uv,
                    front_face: rec.front_face,
                },
            ),
            None => None,
        }
    }

    /// The cached bounding box.
    pub fn bounding_box(&self) -> (r: AABB)
        ensures
            r == self.aabb,
    {
        self.aabb
    }
}

impl Rotate {
    /// Wrap a child, rotated about `axis` by `angle` degrees, with the
    /// sine-cosine pair validated at construction. The cached box is
    /// the union of the child's eight rotated corners.
    pub fn new(object: Hittable, angle: i64, axis: usize) -> (r: Rotate)
        requires
            axis < 3,
        ensures
            *r.object == object,
            r.axis == axis,
            r.sin == checked_sin_cos_s(angle).0,
            r.cos == checked_sin_cos_s(angle).1,
            r.aabb == rotated_box_upto_s(
                checked_sin_cos_s(angle).0,
                checked_sin_cos_s(angle).1,
                axis as int,
                object.bbox_s(),
                8,
            ),
    {
        let rad: i64 = deg_to_rad(angle);
        let sin0: i64 = sin_fx(rad);
        let cos0: i64 = cos_fx(rad);
        let defect: i64 = fsub(fadd(fmul(sin0, sin0), fmul(cos0, cos0)), FX_ONE);
        let (sin, cos): (i64, i64) = if -64 <= defect && defect <= 64 {
            (sin0, cos0)
        } else {
            (0, FX_ONE)
        };
        let child_box = object.bounding_box();
        let corners = child_box.to_corners();
        let mut aabb = AABB::empty();
        let mut k: usize = 0;
        while k < 8
            invariant
                0 <= k <= 8,
                sin == checked_sin_cos_s(angle).0,
                cos == checked_sin_cos_s(angle).1,
                axis < 3,
                child_box == object.bbox_s(),
                forall|i: int| 0 <= i < 8 ==> corners[i] == corner_s(child_box, i),
                aabb == rotated_box_upto_s(sin, cos, axis as int, child_box, k as int),
            decreases 8 - k,
        {
            let c: Vec3 = corners[k];
            let rc: Vec3 = rotate_point(sin, cos, axis, c);
            aabb = aabb.insert(rc);
            k = k + 1;
        }
        Rotate { object: Box::new(object), sin, cos, axis, aabb }
    }

    /// The forward rotation of a point into world coordinates.
    pub fn rotate(&self, point: Point) -> (r: Point)
        ensures
            r == rotate_s(self.sin, self.cos, self.axis as int, point),
    {
        rotate_point(self.sin, self.cos, self.axis, point)
    }

    /// The inverse rotation of a point into the child's frame.
    pub fn unrotate(&self, point: Point) -> (r: Point)
        ensures
            r == unrotate_s(self.sin, self.cos, self.axis as int, point),
    {
        let a1: usize = ((self.axis % 3) + 1) % 3;
        let a2: usize = ((self.axis % 3) + 2) % 3;
        let p1: i64 = point.axis(a1);
        let p2: i64 = point.axis(a2);
        let v1: i64 = fadd(fmul(self.cos, p1), fmul(self.sin, p2));
        let v2: i64 = fsub(fmul(self.cos, p2), fmul(self.sin, p1));
        point.set_axis(a1, v1).set_axis(a2, v2)
    }

    /// Intersect with the ray carried into the child's frame, and the
    /// hit point and normal carried back out.
    pub fn hit(&self, ray: &Ray, ray_t: Interval) -> (res: Option<HitRecord>)
        ensures
            res == rotate_hit_s(*self, *ray, ray_t),
        decreases *self, 1int, 0int,
    {
        let new_ray = Ray {
            origin: self.unrotate(ray.origin),
            direct: self.unrotate(ray.direct),
            time: ray.time,
        };
        match self.object.hit(&new_ray, ray_t) {
            Some(rec) => Some(
                HitRecord {
                    p: self.rotate(rec.p),
                    normal: self.rotate(rec.normal),
                    mat: rec.mat,
                    t: rec.t,
                    uv: rec.uv,
                    front_face: rec.front_face,
                },
            ),
            None => None,
        }
    }

    /// The cached bounding box.
    pub fn bounding_box(&self) -> (r: AABB)
        ensures
            r == self.aabb,
    {
        self.aabb
    }
}

/// One rotation mix and its inverse mix with the same sine and cosine
/// return a coordinate pair to within six fixed-point units plus the
/// identity defect `e = |sin^2 + cos^2 - 1|` scaled by the magnitude
/// bound `b0` of the coordinates.
pub proof fn lemma_unrotate_rotate_pair(sin: i64, cos: i64, p1: i64, p2: i64, e: int, b0: int)
    requires
        -65536 <= sin <= 65536,
        -65536 <= cos <= 65536,
        0 <= e <= 65536 * 65536,
        -e <= sin * sin + cos * cos - 65536 * 65536 <= e,
        0 <= b0 <= 0x1000_0000_0000,
        -b0 <= p1 <= b0,
        -b0 <= p2 <= b0,
    ensures
        ({
            let v1 = fsub_s(fmul_s(cos, p1), fmul_s(sin, p2));
            let v2 = fadd_s(fmul_s(sin, p1), fmul_s(cos, p2));
            let w1 = fadd_s(fmul_s(cos, v1), fmul_s(sin, v2));
            let w2 = fsub_s(fmul_s(cos, v2), fmul_s(sin, v1));
            &&& -(6 * 65536 * 65536 + e * b0) <= 65536 * 65536 * (w1 - p1) <= 6 * 65536 * 65536
                + e * b0
            &&& -(6 * 65536 * 65536 + e * b0) <= 65536 * 65536 * (w2 - p2) <= 6 * 65536 * 65536
                + e * b0
        }),
{
    let ss: int = sin * sin + cos * cos;
    let aa: int = cos * p1 - sin * p2;
    let bb: int = sin * p1 + cos * p2;
    lemma_mul_bound(cos as int, p1 as int, 65536, b0);
    lemma_mul_bound(sin as int, p2 as int, 65536, b0);
    lemma_mul_bound(sin as int, p1 as int, 65536, b0);
    lemma_mul_bound(cos as int, p2 as int, 65536, b0);
    lemma_fmul_exact(cos, p1);
    lemma_fmul_exact(sin, p2);
    lemma_fmul_exact(sin, p1);
    lemma_fmul_exact(cos, p2);
    let m_cp1 = fmul_s(cos, p1);
    let m_sp2 = fmul_s(sin, p2);
    let m_sp1 = fmul_s(sin, p1);
    let m_cp2 = fmul_s(cos, p2);
    assert(-b0 - 1 <= m_cp1 <= b0 + 1);
    assert(-b0 - 1 <= m_sp2 <= b0 + 1);
    assert(-b0 - 1 <= m_sp1 <= b0 + 1);
    assert(-b0 - 1 <= m_cp2 <= b0 + 1);
    lemma_sat64_id(m_cp1 - m_sp2);
    lemma_sat64_id(m_sp1 + m_cp2);
    let v1 = fsub_s(m_cp1, m_sp2);
    let v2 = fadd_s(m_sp1, m_cp2);
    assert(aa - 2 * 65536 < 65536 * v1 < aa + 2 * 65536);
    assert(bb - 2 * 65536 < 65536 * v2 < bb + 2 * 65536);
    lemma_mul_bound(cos as int, v1 as int, 65536, 2 * b0 + 2);
    lemma_mul_bound(sin as int, v2 as int, 65536, 2 * b0 + 2);
    lemma_mul_bound(sin as int, v1 as int, 65536, 2 * b0 + 2);
    lemma_mul_bound(cos as int, v2 as int, 65536, 2 * b0 + 2);
    lemma_fmul_exact(cos, v1);
    lemma_fmul_exact(sin, v2);
    lemma_fmul_exact(sin, v1);
    lemma_fmul_exact(cos, v2);
    let m_cv1 = fmul_s(cos, v1);
    let m_sv2 = fmul_s(sin, v2);
    let m_sv1 = fmul_s(sin, v1);
    let m_cv2 = fmul_s(cos, v2);
    assert(-(2 * b0 + 3) <= m_cv1 <= 2 * b0 + 3);
    assert(-(2 * b0 + 3) <= m_sv2 <= 2 * b0 + 3);
    assert(-(2 * b0 + 3) <= m_sv1 <= 2 * b0 + 3);
    assert(-(2 * b0 + 3) <= m_cv2 <= 2 * b0 + 3);
    lemma_sat64_id(m_cv1 + m_sv2);
    lemma_sat64_id(m_cv2 - m_sv1);
    let w1 = fadd_s(m_cv1, m_sv2);
    let w2 = fsub_s(m_cv2, m_sv1);
    let d1: int = 65536 * v1 - aa;
    let d2: int = 65536 * v2 - bb;
    assert(-(2 * 65536) <= d1 <= 2 * 65536);
    assert(-(2 * 65536) <= d2 <= 2 * 65536);
    assert(cos * (65536 * v1) == 65536 * (cos * v1)) by (nonlinear_arith);
    assert(sin * (65536 * v2) == 65536 * (sin * v2)) by (nonlinear_arith);
    assert(sin * (65536 * v1) == 65536 * (sin * v1)) by (nonlinear_arith);
    assert(cos * (65536 * v2) == 65536 * (cos * v2)) by (nonlinear_arith);
    assert(cos * (65536 * v1) == cos * aa + cos * d1) by (nonlinear_arith)
        requires
            d1 == 65536 * v1 - aa,
    ;
    assert(sin * (65536 * v2) == sin * bb + sin * d2) by (nonlinear_arith)
        requires
            d2 == 65536 * v2 - bb,
    ;
    assert(sin * (65536 * v1) == sin * aa + sin * d1) by (nonlinear_arith)
        requires
            d1 == 65536 * v1 - aa,
    ;
    assert(cos * (65536 * v2) == cos * bb + cos * d2) by (nonlinear_arith)
        requires
            d2 == 65536 * v2 - bb,
    ;
    lemma_mul_bound(cos as int, d1, 65536, 131072int);
    lemma_mul_bound(sin as int, d2, 65536, 131072int);
    lemma_mul_bound(sin as int, d1, 65536, 131072int);
    lemma_mul_bound(cos as int, d2, 65536, 131072int);
    assert(cos * aa + sin * bb == ss * p1) by (nonlinear_arith)
        requires
            aa == cos * p1 - sin * p2,
            bb == sin * p1 + cos * p2,
            ss == sin * sin + cos * cos,
    ;
    assert(cos * bb - sin * aa == ss * p2) by (nonlinear_arith)
        requires
            aa == cos * p1 - sin * p2,
            bb == sin * p1 + cos * p2,
            ss == sin * sin + cos * cos,
    ;
    lemma_mul_bound(ss - 65536 * 65536, p1 as int, e, b0);
    lemma_mul_bound(ss - 65536 * 65536, p2 as int, e, b0);
    assert(ss * p1 == 65536 * 65536 * p1 + (ss - 65536 * 65536) * p1) by (nonlinear_arith);
    assert(ss * p2 == 65536 * 65536 * p2 + (ss - 65536 * 65536) * p2) by (nonlinear_arith);
}

/// The inverse mix followed by the forward mix returns a coordinate
/// pair within the same bound: the two maps are mutual inverses in
/// either order, up to the identity defect of the sine-cosine pair.
pub proof fn lemma_rotate_unrotate_pair(sin: i64, cos: i64, p1: i64, p2: i64, e: int, b0: int)
    requires
        -65536 <= sin <= 65536,
        -65536 <= cos <= 65536,
        0 <= e <= 65536 * 65536,
        -e <= sin * sin + cos * cos - 65536 * 65536 <= e,
        0 <= b0 <= 0x1000_0000_0000,
        -b0 <= p1 <= b0,
        -b0 <= p2 <= b0,
    ensures
        ({
            let u1 = fadd_s(fmul_s(cos, p1), fmul_s(sin, p2));
            let u2 = fsub_s(fmul_s(cos, p2), fmul_s(sin, p1));
            let z1 = fsub_s(fmul_s(cos, u1), fmul_s(sin, u2));
            let z2 = fadd_s(fmul_s(sin, u1), fmul_s(cos, u2));
            &&& -(6 * 65536 * 65536 + e * b0) <= 65536 * 65536 * (z1 - p1) <= 6 * 65536 * 65536
                + e * b0
            &&& -(6 * 65536 * 65536 + e * b0) <= 65536 * 65536 * (z2 - p2) <= 6 * 65536 * 65536
                + e * b0
        }),
{
    let ss: int = sin * sin + cos * cos;
    let aa: int = cos * p1 + sin * p2;
    let bb: int = cos * p2 - sin * p1;
    lemma_mul_bound(cos as int, p1 as int, 65536, b0);
    lemma_mul_bound(sin as int, p2 as int, 65536, b0);
    lemma_mul_bound(sin as int, p1 as int, 65536, b0);
    lemma_mul_bound(cos as int, p2 as int, 65536, b0);
    lemma_fmul_exact(cos, p1);
    lemma_fmul_exact(sin, p2);
    lemma_fmul_exact(sin, p1);
    lemma_fmul_exact(cos, p2);
    let m_cp1 = fmul_s(cos, p1);
    let m_sp2 = fmul_s(sin, p2);
    let m_sp1 = fmul_s(sin, p1);
    let m_cp2 = fmul_s(cos, p2);
    assert(-b0 - 1 <= m_cp1 <= b0 + 1);
    assert(-b0 - 1 <= m_sp2 <= b0 + 1);
    assert(-b0 - 1 <= m_sp1 <= b0 + 1);
    assert(-b0 - 1 <= m_cp2 <= b0 + 1);
    lemma_sat64_id(m_cp1 + m_sp2);
    lemma_sat64_id(m_cp2 - m_sp1);
    let u1 = fadd_s(m_cp1, m_sp2);
    let u2 = fsub_s(m_cp2, m_sp1);
    assert(aa - 2 * 65536 < 65536 * u1 < aa + 2 * 65536);
    assert(bb - 2 * 65536 < 65536 * u2 < bb + 2 * 65536);
    lemma_mul_bound(cos as int, u1 as int, 65536, 2 * b0 + 2);
    lemma_mul_bound(sin as int, u2 as int, 65536, 2 * b0 + 2);
    lemma_mul_bound(sin as int, u1 as int, 65536, 2 * b0 + 2);
    lemma_mul_bound(cos as int, u2 as int, 65536, 2 * b0 + 2);
    lemma_fmul_exact(cos, u1);
    lemma_fmul_exact(sin, u2);
    lemma_fmul_exact(sin, u1);
    lemma_fmul_exact(cos, u2);
    let m_cu1 = fmul_s(cos, u1);
    let m_su2 = fmul_s(sin, u2);
    let m_su1 = fmul_s(sin, u1);
    let m_cu2 = fmul_s(cos, u2);
    assert(-(2 * b0 + 3) <= m_cu1 <= 2 * b0 + 3);
    assert(-(2 * b0 + 3) <= m_su2 <= 2 * b0 + 3);
    assert(-(2 * b0 + 3) <= m_su1 <= 2 * b0 + 3);
    assert(-(2 * b0 + 3) <= m_cu2 <= 2 * b0 + 3);
    lemma_sat64_id(m_cu1 - m_su2);
    lemma_sat64_id(m_su1 + m_cu2);
    let d1: int = 65536 * u1 - aa;
    let d2: int = 65536 * u2 - bb;
    assert(-(2 * 65536) <= d1 <= 2 * 65536);
    assert(-(2 * 65536) <= d2 <= 2 * 65536);
    assert(cos * (65536 * u1) == 65536 * (cos * u1)) by (nonlinear_arith);
    assert(sin * (65536 * u2) == 65536 * (sin * u2)) by (nonlinear_arith);
    assert(sin * (65536 * u1) == 65536 * (sin * u1)) by (nonlinear_arith);
    assert(cos * (65536 * u2) == 65536 * (cos * u2)) by (nonlinear_arith);
    assert(cos * (65536 * u1) == cos * aa + cos * d1) by (nonlinear_arith)
        requires
            d1 == 65536 * u1 - aa,
    ;
    assert(sin * (65536 * u2) == sin * bb + sin * d2) by (nonlinear_arith)
        requires
            d2 == 65536 * u2 - bb,
    ;
    assert(sin * (65536 * u1) == sin * aa + sin * d1) by (nonlinear_arith)
        requires
            d1 == 65536 * u1 - aa,
    ;
    assert(cos * (65536 * u2) == cos * bb + cos * d2) by (nonlinear_arith)
        requires
            d2 == 65536 * u2 - bb,
    ;
    lemma_mul_bound(cos as int, d1, 65536, 131072int);
    lemma_mul_bound(sin as int, d2, 65536, 131072int);
    lemma_mul_bound(sin as int, d1, 65536, 131072int);
    lemma_mul_bound(cos as int, d2, 65536, 131072int);
    assert(cos * aa - sin * bb == ss * p1) by (nonlinear_arith)
        requires
            aa == cos * p1 + sin * p2,
            bb == cos * p2 - sin * p1,
            ss == sin * sin + cos * cos,
    ;
    assert(sin * aa + cos * bb == ss * p2) by (nonlinear_arith)
        requires
            aa == cos * p1 + sin * p2,
            bb == cos * p2 - sin * p1,
            ss == sin * sin + cos * cos,
    ;
    lemma_mul_bound(ss - 65536 * 65536, p1 as int, e, b0);
    lemma_mul_bound(ss - 65536 * 65536, p2 as int, e, b0);
    assert(ss * p1 == 65536 * 65536 * p1 + (ss - 65536 * 65536) * p1) by (nonlinear_arith);
    assert(ss * p2 == 65536 * 65536 * p2 + (ss - 65536 * 65536) * p2) by (nonlinear_arith);
}

/// Rotating a point and then unrotating it with the same sine and
/// cosine returns the original point within epsilon: the component on
/// the rotation axis exactly, and each mixed component to within six
/// fixed-point units plus the identity defect `e` of the sine-cosine
/// pair scaled by the coordinate bound `b0`.
pub proof fn lemma_rotate_round_trip(sin: i64, cos: i64, axis: int, p: Vec3, e: int, b0: int)
    requires
        -65536 <= sin <= 65536,
        -65536 <= cos <= 65536,
        0 <= e <= 65536 * 65536,
        -e <= sin * sin + cos * cos - 65536 * 65536 <= e,
        0 <= b0 <= 0x1000_0000_0000,
        -b0 <= p.x <= b0,
        -b0 <= p.y <= b0,
        -b0 <= p.z <= b0,
    ensures
        ({
            let q = unrotate_s(sin, cos, axis, rotate_s(sin, cos, axis, p));
            let a1 = ((axis % 3) + 1) % 3;
            let a2 = ((axis % 3) + 2) % 3;
            &&& forall|i: int|
                0 <= i < 3 && i != a1 && i != a2 ==> axis_s(q, i) == axis_s(p, i)
            &&& -(6 * 65536 * 65536 + e * b0) <= 65536 * 65536 * (axis_s(q, a1) - axis_s(p, a1))
                <= 6 * 65536 * 65536 + e * b0
            &&& -(6 * 65536 * 65536 + e * b0) <= 65536 * 65536 * (axis_s(q, a2) - axis_s(p, a2))
                <= 6 * 65536 * 65536 + e * b0
        }),
{
    let a1 = ((axis % 3) + 1) % 3;
    let a2 = ((axis % 3) + 2) % 3;
    lemma_unrotate_rotate_pair(sin, cos, axis_s(p, a1), axis_s(p, a2), e, b0);
}

/// The same round trip in the other order: unrotating a point and then
/// rotating it back returns the original point within the same bound.
pub proof fn lemma_unrotate_round_trip(sin: i64, cos: i64, axis: int, p: Vec3, e: int, b0: int)
    requires
        -65536 <= sin <= 65536,
        -65536 <= cos <= 65536,
        0 <= e <= 65536 * 65536,
        -e <= sin * sin + cos * cos - 65536 * 65536 <= e,
        0 <= b0 <= 0x1000_0000_0000,
        -b0 <= p.x <= b0,
        -b0 <= p.y <= b0,
        -b0 <= p.z <= b0,
    ensures
        ({
            let q = rotate_s(sin, cos, axis, unrotate_s(sin, cos, axis, p));
            let a1 = ((axis % 3) + 1) % 3;
            let a2 = ((axis % 3) + 2) % 3;
            &&& forall|i: int|
                0 <= i < 3 && i != a1 && i != a2 ==> axis_s(q, i) == axis_s(p, i)
            &&& -(6 * 65536 * 65536 + e * b0) <= 65536 * 65536 * (axis_s(q, a1) - axis_s(p, a1))
                <= 6 * 65536 * 65536 + e * b0
            &&& -(6 * 65536 * 65536 + e * b0) <= 65536 * 65536 * (axis_s(q, a2) - axis_s(p, a2))
                <= 6 * 65536 * 65536 + e * b0
        }),
{
    let a1 = ((axis % 3) + 1) % 3;
    let a2 = ((axis % 3) + 2) % 3;
    lemma_rotate_unrotate_pair(sin, cos, axis_s(p, a1), axis_s(p, a2), e, b0);
}

/// The validated sine-cosine pair stays in `[-1, 1]` and its squares
/// sum to one within `66 / 65536`: the bound follows from the clamp on
/// the sine, the construction-time tolerance check, and the one-unit
/// truncation of each fixed product.
pub proof fn lemma_checked_sin_cos(angle: i64)
    ensures
        ({
            let sc = checked_sin_cos_s(angle);
            &&& -FX_ONE <= sc.0 <= FX_ONE
            &&& -FX_ONE <= sc.1 <= FX_ONE
            &&& -(66 * 65536) <= sc.0 * sc.0 + sc.1 * sc.1 - 65536 * 65536 <= 66 * 65536
        }),
{
    crate::trig::lemma_sin_cos_bounded(deg_to_rad_s(angle));
    let s = sin_s(deg_to_rad_s(angle));
    let c = cos_s(deg_to_rad_s(angle));
    assert(s * s >= 0) by (nonlinear_arith);
    assert(c * c >= 0) by (nonlinear_arith);
    lemma_mul_bound(s as int, s as int, 65536, 65536);
    lemma_mul_bound(c as int, c as int, 65536, 65536);
    lemma_fmul_exact(s, s);
    lemma_fmul_exact(c, c);
    let m1 = fmul_s(s, s);
    let m2 = fmul_s(c, c);
    assert(0 <= m1 <= 65536);
    assert(0 <= m2 <= 65536);
    lemma_sat64_id(m1 + m2);
    lemma_sat64_id(m1 + m2 - 65536);
}

/// The round trip holds for every rotation as constructed, in both
/// orders, with no premise beyond a coordinate bound: rotating and
/// unrotating (or unrotating and rotating) a point with the pair
/// `Rotate::new` stores returns it exactly on the rotation axis and
/// within `6 / 65536` plus about a tenth of a percent of the
/// coordinate bound on the two mixed axes.
pub proof fn lemma_rotate_new_round_trip(angle: i64, axis: int, p: Vec3, b0: int)
    requires
        0 <= b0 <= 0x1000_0000_0000,
        -b0 <= p.x <= b0,
        -b0 <= p.y <= b0,
        -b0 <= p.z <= b0,
    ensures
        ({
            let sc = checked_sin_cos_s(angle);
            let a1 = ((axis % 3) + 1) % 3;
            let a2 = ((axis % 3) + 2) % 3;
            let q = unrotate_s(sc.0, sc.1, axis, rotate_s(sc.0, sc.1, axis, p));
            let z = rotate_s(sc.0, sc.1, axis, unrotate_s(sc.0, sc.1, axis, p));
            &&& forall|i: int|
                0 <= i < 3 && i != a1 && i != a2 ==> axis_s(q, i) == axis_s(p, i) && axis_s(z, i)
                    == axis_s(p, i)
            &&& -(6 * 65536 * 65536 + 66 * 65536 * b0) <= 65536 * 65536 * (axis_s(q, a1) - axis_s(
                p,
                a1,
            )) <= 6 * 65536 * 65536 + 66 * 65536 * b0
            &&& -(6 * 65536 * 65536 + 66 * 65536 * b0) <= 65536 * 65536 * (axis_s(q, a2) - axis_s(
                p,
                a2,
            )) <= 6 * 65536 * 65536 + 66 * 65536 * b0
            &&& -(6 * 65536 * 65536 + 66 * 65536 * b0) <= 65536 * 65536 * (axis_s(z, a1) - axis_s(
                p,
                a1,
            )) <= 6 * 65536 * 65536 + 66 * 65536 * b0
            &&& -(6 * 65536 * 65536 + 66 * 65536 * b0) <= 65536 * 65536 * (axis_s(z, a2) - axis_s(
                p,
                a2,
            )) <= 6 * 65536 * 65536 + 66 * 65536 * b0
        }),
{
    lemma_checked_sin_cos(angle);
    let sc = checked_sin_cos_s(angle);
    lemma_rotate_round_trip(sc.0, sc.1, axis, p, 4325376int, b0);
    lemma_unrotate_round_trip(sc.0, sc.1, axis, p, 4325376int, b0);
}

/// The forward rotation as a free function, shared by construction and
/// traversal.
fn rotate_point(sin: i64, cos: i64, axis: usize, p: Vec3) -> (r: Vec3)
    ensures
        r == rotate_s(sin, cos, axis as int, p),
{
    let a1: usize = ((axis % 3) + 1) % 3;
    let a2: usize = ((axis % 3) + 2) % 3;
    let p1: i64 = p.axis(a1);
    let p2: i64 = p.axis(a2);
    let v1: i64 = fsub(fmul(cos, p1), fmul(sin, p2));
    let v2: i64 = fadd(fmul(sin, p1), fmul(cos, p2));
    p.set_axis(a1, v1).set_axis(a2, v2)
}

} // verus!
