//! Axis-aligned bounding boxes and the ray-slab test.

use vstd::prelude::*;

use super::interval::{combine_s, expand_s, insert_s, offset_s, Interval};
use crate::fixed::{fdiv, fdiv_s, fsub, fsub_s, FX_SAT};
use crate::ray::Ray;
use crate::units::{Point, Vector};
use crate::vec3::Vec3;

verus! {

/// A box given by one fixed-point range per axis.
#[derive(Clone, Copy, Debug, PartialEq, Eq, Structural)]
pub struct AABB {
    pub x: Interval,
    pub y: Interval,
    pub z: Interval,
}

/// The parameter range along one axis: the query range cut down to the
/// slab `[lo, hi]`. A ray running parallel to the slab keeps the query
/// range if its origin lies inside, and yields the empty range if not.
pub open spec fn slab_s(itv: Interval, orig: i64, dir: i64, lo: i64, hi: i64) -> Interval {
    if dir == 0 {
        if lo <= orig && orig <= hi {
            itv
        } else {
            Interval { min: FX_SAT, max: ((-FX_SAT) as i64) }
        }
    } else {
        let t0 = fdiv_s(fsub_s(lo, orig), dir);
        let t1 = fdiv_s(fsub_s(hi, orig), dir);
        let near = if dir < 0 { t1 } else { t0 };
        let far = if dir < 0 { t0 } else { t1 };
        Interval {
            min: if near > itv.min { near } else { itv.min },
            max: if far < itv.max { far } else { itv.max },
        }
    }
}

/// The running range after the x, y and z slabs, in that order.
pub open spec fn slab_fold_s(b: AABB, r: Ray, t: Interval) -> Interval {
    let tx = slab_s(t, r.origin.x, r.direct.x, b.x.min, b.x.max);
    let ty = slab_s(tx, r.origin.y, r.direct.y, b.y.min, b.y.max);
    slab_s(ty, r.origin.z, r.direct.z, b.z.min, b.z.max)
}

/// The slab test: true exactly when the range left after cutting the
/// query range down to all three slabs is nonempty.
pub open spec fn aabb_hit_s(b: AABB, r: Ray, t: Interval) -> bool {
    let u = slab_fold_s(b, r, t);
    u.min < u.max
}

/// Cutting a range down to a slab never grows it, so an empty running
/// range stays empty; the early exit in the loop is therefore exact.
pub proof fn lemma_slab_shrinks(itv: Interval, orig: i64, dir: i64, lo: i64, hi: i64)
    ensures
        slab_s(itv, orig, dir, lo, hi).min >= itv.min || slab_s(itv, orig, dir, lo, hi).min
            == FX_SAT,
        slab_s(itv, orig, dir, lo, hi).max <= itv.max || slab_s(itv, orig, dir, lo, hi).max
            == -FX_SAT,
{
}

/// The lower end an axis contributes to the intersection: the near
/// slab crossing; nothing for a parallel ray inside the slab; an
/// unbeatable floor for a parallel ray outside it.
pub open spec fn axis_near_s(orig: i64, dir: i64, lo: i64, hi: i64) -> i64 {
    if dir == 0 {
        if lo <= orig && orig <= hi {
            i64::MIN
        } else {
            FX_SAT
        }
    } else {
        let t0 = fdiv_s(fsub_s(lo, orig), dir);
        let t1 = fdiv_s(fsub_s(hi, orig), dir);
        if dir < 0 {
            t1
        } else {
            t0
        }
    }
}

/// The upper end an axis contributes to the intersection.
pub open spec fn axis_far_s(orig: i64, dir: i64, lo: i64, hi: i64) -> i64 {
    if dir == 0 {
        if lo <= orig && orig <= hi {
            i64::MAX
        } else {
            (-FX_SAT) as i64
        }
    } else {
        let t0 = fdiv_s(fsub_s(lo, orig), dir);
        let t1 = fdiv_s(fsub_s(hi, orig), dir);
        if dir < 0 {
            t0
        } else {
            t1
        }
    }
}

/// The larger of two scalars.
pub open spec fn smax_s(a: i64, b: i64) -> i64 {
    if a >= b {
        a
    } else {
        b
    }
}

/// The smaller of two scalars.
pub open spec fn smin_s(a: i64, b: i64) -> i64 {
    if a <= b {
        a
    } else {
        b
    }
}

/// The slab test is the intersection test, axis order immaterial: the
/// box is hit exactly when the query range cut down by every axis's
/// near and far crossings at once is still nonempty.
pub proof fn lemma_aabb_hit_axis_wise(b: AABB, r: Ray, t: Interval)
    ensures
        aabb_hit_s(b, r, t) <==> ({
            let lo = smax_s(
                smax_s(t.min, axis_near_s(r.origin.x, r.direct.x, b.x.min, b.x.max)),
                smax_s(
                    axis_near_s(r.origin.y, r.direct.y, b.y.min, b.y.max),
                    axis_near_s(r.origin.z, r.direct.z, b.z.min, b.z.max),
                ),
            );
            let hi = smin_s(
                smin_s(t.max, axis_far_s(r.origin.x, r.direct.x, b.x.min, b.x.max)),
                smin_s(
                    axis_far_s(r.origin.y, r.direct.y, b.y.min, b.y.max),
                    axis_far_s(r.origin.z, r.direct.z, b.z.min, b.z.max),
                ),
            );
            lo < hi
        }),
{
}

impl AABB {
    /// The box spanned by two opposite corners, in either order.
    pub open spec fn from_corners_s(a: Point, b: Point) -> AABB {
        AABB {
            x: Interval {
                min: if a.x <= b.x { a.x } else { b.x },
                max: if a.x >= b.x { a.x } else { b.x },
            },
            y: Interval {
                min: if a.y <= b.y { a.y } else { b.y },
                max: if a.y >= b.y { a.y } else { b.y },
            },
            z: Interval {
                min: if a.z <= b.z { a.z } else { b.z },
                max: if a.z >= b.z { a.z } else { b.z },
            },
        }
    }

    pub fn new(x: Interval, y: Interval, z: Interval) -> (r: AABB)
        ensures
            r == (AABB { x, y, z }),
    {
        AABB { x, y, z }
    }

    /// The box spanned by two opposite corners, in either order.
    pub fn from_corners(a: Point, b: Point) -> (r: AABB)
        ensures
            r == AABB::from_corners_s(a, b),
    {
        AABB {
            x: Interval {
                min: if a.x <= b.x { a.x } else { b.x },
                max: if a.x >= b.x { a.x } else { b.x },
            },
            y: Interval {
                min: if a.y <= b.y { a.y } else { b.y },
                max: if a.y >= b.y { a.y } else { b.y },
            },
            z: Interval {
                min: if a.z <= b.z { a.z } else { b.z },
                max: if a.z >= b.z { a.z } else { b.z },
            },
        }
    }

    /// The union identity: the empty box.
    pub open spec fn empty_s() -> AABB {
        AABB {
            x: Interval { min: FX_SAT, max: ((-FX_SAT) as i64) },
            y: Interval { min: FX_SAT, max: ((-FX_SAT) as i64) },
            z: Interval { min: FX_SAT, max: ((-FX_SAT) as i64) },
        }
    }

    /// The componentwise union of two boxes.
    pub open spec fn combined_s(self, other: AABB) -> AABB {
        AABB {
            x: combine_s(self.x, other.x),
            y: combine_s(self.y, other.y),
            z: combine_s(self.z, other.z),
        }
    }

    /// The box grown to include a point.
    pub open spec fn inserted_s(self, point: Point) -> AABB {
        AABB {
            x: insert_s(self.x, point.x),
            y: insert_s(self.y, point.y),
            z: insert_s(self.z, point.z),
        }
    }

    /// The box shifted by a vector.
    pub open spec fn offset_box_s(self, offset: Vector) -> AABB {
        AABB {
            x: offset_s(self.x, offset.x),
            y: offset_s(self.y, offset.y),
            z: offset_s(self.z, offset.z),
        }
    }

    /// The union identity: the empty box.
    pub fn empty() -> (r: AABB)
        ensures
            r == AABB::empty_s(),
    {
        AABB {
            x: Interval { min: FX_SAT, max: -FX_SAT },
            y: Interval { min: FX_SAT, max: -FX_SAT },
            z: Interval { min: FX_SAT, max: -FX_SAT },
        }
    }

    /// The per-axis ranges, in axis order.
    pub fn as_array(&self) -> (r: [Interval; 3])
        ensures
            r[0] == self.x,
            r[1] == self.y,
            r[2] == self.z,
    {
        [self.x, self.y, self.z]
    }

    /// The range along axis `i`.
    pub fn axis(&self, i: usize) -> (r: Interval)
        requires
            i < 3,
        ensures
            r == if i == 0 {
                self.x
            } else if i == 1 {
                self.y
            } else {
                self.z
            },
    {
        if i == 0 {
            self.x
        } else if i == 1 {
            self.y
        } else {
            self.z
        }
    }

    /// The ray-slab test against the query range `ray_t`.
    pub fn hit(&self, ray: &Ray, ray_t: Interval) -> (r: bool)
        ensures
            r == aabb_hit_s(*self, *ray, ray_t),
    {
        let tx = slab(ray_t, ray.origin.x, ray.direct.x, self.x.min, self.x.max);
        if tx.max <= tx.min {
            proof {
                lemma_slab_shrinks(tx, ray.origin.y, ray.direct.y, self.y.min, self.y.max);
                let ty = slab_s(tx, ray.origin.y, ray.direct.y, self.y.min, self.y.max);
                lemma_slab_shrinks(ty, ray.origin.z, ray.direct.z, self.z.min, self.z.max);
            }
            return false;
        }
        let ty = slab(tx, ray.origin.y, ray.direct.y, self.y.min, self.y.max);
        if ty.max <= ty.min {
            proof {
                lemma_slab_shrinks(ty, ray.origin.z, ray.direct.z, self.z.min, self.z.max);
            }
            return false;
        }
        let tz = slab(ty, ray.origin.z, ray.direct.z, self.z.min, self.z.max);
        tz.min < tz.max
    }

    /// The box padded by `delta / 2` on every side.
    pub open spec fn expanded_s(self, delta: i64) -> AABB {
        AABB { x: expand_s(self.x, delta), y: expand_s(self.y, delta), z: expand_s(self.z, delta) }
    }

    /// The box padded by `delta / 2` on every side.
    pub fn expand(self, delta: i64) -> (r: AABB)
        ensures
            r == self.expanded_s(delta),
    {
        AABB { x: self.x.expand(delta), y: self.y.expand(delta), z: self.z.expand(delta) }
    }

    /// The componentwise union of two boxes.
    pub fn combine(self, other: AABB) -> (r: AABB)
        ensures
            r == self.combined_s(other),
    {
        AABB { x: self.x.combine(other.x), y: self.y.combine(other.y), z: self.z.combine(other.z) }
    }

    /// The box grown to include a point.
    pub fn insert(self, point: Point) -> (r: AABB)
        ensures
            r == self.inserted_s(point),
    {
        AABB { x: self.x.insert(point.x), y: self.y.insert(point.y), z: self.z.insert(point.z) }
    }

    /// Every axis whose width is under the epsilon is padded up to it.
    pub open spec fn padded_s(self) -> AABB {
        AABB {
            x: if fsub_s(self.x.max, self.x.min) < 66 { expand_s(self.x, 66) } else { self.x },
            y: if fsub_s(self.y.max, self.y.min) < 66 { expand_s(self.y, 66) } else { self.y },
            z: if fsub_s(self.z.max, self.z.min) < 66 { expand_s(self.z, 66) } else { self.z },
        }
    }

    /// Every axis whose width is under the epsilon is padded up to it,
    /// so a flat box cannot defeat the slab test.
    pub fn pad(self) -> (r: AABB)
        ensures
            r == self.padded_s(),
    {
        let delta: i64 = 66;
        let x = if self.x.size() < delta { self.x.expand(delta) } else { self.x };
        let y = if self.y.size() < delta { self.y.expand(delta) } else { self.y };
        let z = if self.z.size() < delta { self.z.expand(delta) } else { self.z };
        AABB { x, y, z }
    }

    /// The box shifted by a vector.
    pub fn offset(self, offset: Vector) -> (r: AABB)
        ensures
            r == self.offset_box_s(offset),
    {
        AABB { x: self.x.offset(offset.x), y: self.y.offset(offset.y), z: self.z.offset(offset.z) }
    }

    /// The eight corner points of the box.
    pub fn to_corners(self) -> (r: [Point; 8])
        ensures
            forall|i: int|
                0 <= i < 8 ==> r[i] == (Vec3 {
                    x: if i % 2 == 0 { self.x.min } else { self.x.max },
                    y: if (i / 2) % 2 == 0 { self.y.min } else { self.y.max },
                    z: if (i / 4) % 2 == 0 { self.z.min } else { self.z.max },
                }),
    {
        [
            Vec3 { x: self.x.min, y: self.y.min, z: self.z.min },
            Vec3 { x: self.x.max, y: self.y.min, z: self.z.min },
            Vec3 { x: self.x.min, y: self.y.max, z: self.z.min },
            Vec3 { x: self.x.max, y: self.y.max, z: self.z.min },
            Vec3 { x: self.x.min, y: self.y.min, z: self.z.max },
            Vec3 { x: self.x.max, y: self.y.min, z: self.z.max },
            Vec3 { x: self.x.min, y: self.y.max, z: self.z.max },
            Vec3 { x: self.x.max, y: self.y.max, z: self.z.max },
        ]
    }
}

/// One axis of the slab test.
fn slab(itv: Interval, orig: i64, dir: i64, lo: i64, hi: i64) -> (r: Interval)
    ensures
        r == slab_s(itv, orig, dir, lo, hi),
{
    if dir == 0 {
        if lo <= orig && orig <= hi {
            itv
        } else {
            Interval { min: FX_SAT, max: -FX_SAT }
        }
    } else {
        let t0: i64 = fdiv(fsub(lo, orig), dir);
        let t1: i64 = fdiv(fsub(hi, orig), dir);
        let near: i64 = if dir < 0 { t1 } else { t0 };
        let far: i64 = if dir < 0 { t0 } else { t1 };
        Interval {
            min: if near > itv.min { near } else { itv.min },
            max: if far < itv.max { far } else { itv.max },
        }
    }
}

} // verus!
