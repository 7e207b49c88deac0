//! Geometry a ray can intersect.

pub mod aabb;
pub mod bvh;
pub mod instances;
pub mod interval;
pub mod quad;
pub mod sphere;

use vstd::prelude::*;

use self::aabb::{aabb_hit_s, AABB};
use self::bvh::BvhNode;
use self::instances::{rotate_s, unrotate_s, Rotate, Translate};
use self::interval::{combine_s, Interval};
use self::quad::{quad_hit_s, Quad};
use self::sphere::{sphere_hit_s, Sphere};
use crate::fixed::FX_SAT;
use crate::ray::Ray;
use crate::units::{Point, TexCoord, Vector};
use crate::vec3::{dot_s, vadd_s, vneg_s, vsub_s};

verus! {

/// The result of a successful intersection. `mat` indexes the scene's
/// material table; `normal` always points against the incoming ray.
#[derive(Clone, Copy, Debug, PartialEq, Eq, Structural)]
pub struct HitRecord {
    pub p: Point,
    pub normal: Vector,
    pub mat: usize,
    pub t: i64,
    pub uv: TexCoord,
    pub front_face: bool,
}

/// Whether the ray strikes the surface from the side its outward
/// normal points to.
pub open spec fn front_face_s(ray: Ray, outward_normal: Vector) -> bool {
    dot_s(ray.direct, outward_normal) < 0
}

/// The record built from an outward normal: the stored normal is the
/// outward normal flipped onto the incoming ray's side.
pub open spec fn hit_record_s(
    ray: Ray,
    p: Point,
    outward_normal: Vector,
    uv: TexCoord,
    mat: usize,
    t: i64,
) -> HitRecord {
    HitRecord {
        p,
        normal: if front_face_s(ray, outward_normal) {
            outward_normal
        } else {
            vneg_s(outward_normal)
        },
        mat,
        t,
        uv,
        front_face: front_face_s(ray, outward_normal),
    }
}

impl HitRecord {
    pub fn new(
        ray: &Ray,
        p: Point,
        outward_normal: Vector,
        uv: TexCoord,
        mat: usize,
        t: i64,
    ) -> (r: HitRecord)
        ensures
            r == hit_record_s(*ray, p, outward_normal, uv, mat, t),
    {
        let front_face: bool = ray.direct.dot(outward_normal) < 0;
        let normal: Vector = if front_face { outward_normal } else { outward_normal.neg() };
        HitRecord { p, normal, t, front_face, uv, mat }
    }
}

/// The closed set of geometry a ray can intersect.
pub enum Hittable {
    Sphere(Sphere),
    Quad(Quad),
    List(HittableList),
    Bvh(BvhNode),
    Translated(Translate),
    Rotated(Rotate),
}

/// An unordered collection scanned linearly, with its combined box cached.
pub struct HittableList {
    pub objects: Vec<Hittable>,
    pub aabb: AABB,
}

/// The linear scan from index `i` with the best hit found so far: each
/// later hit must fall strictly inside the range already shrunk to the
/// best hit's parameter, so the final answer is the nearest hit.
pub open spec fn list_hit_from_s(
    objects: Seq<Hittable>,
    r: Ray,
    ray_t: Interval,
    i: int,
    best: Option<HitRecord>,
) -> Option<HitRecord>
    decreases objects, 1int, objects.len() - i,
{
    if i < 0 || i >= objects.len() {
        best
    } else {
        match objects[i].hit_s(r, ray_t) {
            Some(rec) => list_hit_from_s(
                objects,
                r,
                Interval { min: ray_t.min, max: rec.t },
                i + 1,
                Some(rec),
            ),
            None => list_hit_from_s(objects, r, ray_t, i + 1, best),
        }
    }
}

/// The node test-and-descend: a missed box prunes the whole subtree;
/// the right child is probed with the range already shrunk to the left
/// hit, so a right answer is strictly nearer and wins.
pub open spec fn bvh_node_hit_s(n: BvhNode, r: Ray, ray_t: Interval) -> Option<HitRecord>
    decreases n, 1int, 0int,
{
    if !aabb_hit_s(n.aabb, r, ray_t) {
        None
    } else {
        let hit_l = (*n.l).hit_s(r, ray_t);
        let shrunk = match hit_l {
            Some(rec) => Interval { min: ray_t.min, max: rec.t },
            None => ray_t,
        };
        let hit_r = (*n.r).hit_s(r, shrunk);
        match hit_r {
            Some(rec) => Some(rec),
            None => hit_l,
        }
    }
}

/// Intersection against the child in its local frame, with the hit
/// point carried back into world coordinates.
pub open spec fn translate_hit_s(tr: Translate, r: Ray, ray_t: Interval) -> Option<HitRecord>
    decreases tr, 1int, 0int,
{
    let local = Ray { origin: vsub_s(r.origin, tr.offset), direct: r.direct, time: r.time };
    match (*tr.object).hit_s(local, ray_t) {
        Some(rec) => Some(
            HitRecord {
                p: vadd_s(rec.p, tr.offset),
                normal: rec.normal,
                mat: rec.mat,
                t: rec.t,
                uv: rec.uv,
                front_face: rec.front_face,
            },
        ),
        None => None,
    }
}

/// Intersection with the ray unrotated into the child's frame and the
/// hit point and normal rotated back out.
pub open spec fn rotate_hit_s(ro: Rotate, r: Ray, ray_t: Interval) -> Option<HitRecord>
    decreases ro, 1int, 0int,
{
    let local = Ray {
        origin: unrotate_s(ro.sin, ro.cos, ro.axis as int, r.origin),
        direct: unrotate_s(ro.sin, ro.cos, ro.axis as int, r.direct),
        time: r.time,
    };
    match (*ro.object).hit_s(local, ray_t) {
        Some(rec) => Some(
            HitRecord {
                p: rotate_s(ro.sin, ro.cos, ro.axis as int, rec.p),
                normal: rotate_s(ro.sin, ro.cos, ro.axis as int, rec.normal),
                mat: rec.mat,
                t: rec.t,
                uv: rec.uv,
                front_face: rec.front_face,
            },
        ),
        None => None,
    }
}

impl Hittable {
    /// The closest intersection with parameter inside `ray_t`, under
    /// each variant's own acceptance rule.
    pub open spec fn hit_s(self, r: Ray, ray_t: Interval) -> Option<HitRecord>
        decreases self, 0int, 0int,
    {
        match self {
            Hittable::Sphere(s) => sphere_hit_s(s, r, ray_t),
            Hittable::Quad(q) => quad_hit_s(q, r, ray_t),
            Hittable::List(l) => list_hit_from_s(l.objects@, r, ray_t, 0, None),
            Hittable::Bvh(n) => bvh_node_hit_s(n, r, ray_t),
            Hittable::Translated(tr) => translate_hit_s(tr, r, ray_t),
            Hittable::Rotated(ro) => rotate_hit_s(ro, r, ray_t),
        }
    }

    /// The cached bounding box of any variant.
    pub open spec fn bbox_s(self) -> AABB {
        match self {
            Hittable::Sphere(s) => s.aabb,
            Hittable::Quad(q) => q.aabb,
            Hittable::List(l) => l.aabb,
            Hittable::Bvh(n) => n.aabb,
            Hittable::Translated(tr) => tr.aabb,
            Hittable::Rotated(ro) => ro.aabb,
        }
    }

    /// The closest intersection with parameter inside `ray_t`.
    pub fn hit(&self, ray: &Ray, ray_t: Interval) -> (res: Option<HitRecord>)
        ensures
            res == self.hit_s(*ray, ray_t),
        decreases *self, 0int, 0int,
    {
        match self {
            Hittable::Sphere(s) => s.hit(ray, ray_t),
            Hittable::Quad(q) => q.hit(ray, ray_t),
            Hittable::List(l) => l.hit(ray, ray_t),
            Hittable::Bvh(n) => n.hit(ray, ray_t),
            Hittable::Translated(tr) => tr.hit(ray, ray_t),
            Hittable::Rotated(ro) => ro.hit(ray, ray_t),
        }
    }

    /// The cached bounding box.
    pub fn bounding_box(&self) -> (r: AABB)
        ensures
            r == self.bbox_s(),
    {
        match self {
            Hittable::Sphere(s) => s.aabb,
            Hittable::Quad(q) => q.aabb,
            Hittable::List(l) => l.aabb,
            Hittable::Bvh(n) => n.aabb,
            Hittable::Translated(tr) => tr.aabb,
            Hittable::Rotated(ro) => ro.aabb,
        }
    }
}

/// Any hit a linear scan reports has its parameter inside `[lo, hi]`,
/// provided the running range and any carried best hit do.
pub proof fn lemma_list_hit_within(
    objects: Seq<Hittable>,
    r: Ray,
    ray_t: Interval,
    i: int,
    best: Option<HitRecord>,
    lo: i64,
    hi: i64,
)
    requires
        ray_t.min >= lo,
        ray_t.max <= hi,
        match best {
            Some(rec) => lo <= rec.t <= hi,
            None => true,
        },
    ensures
        match list_hit_from_s(objects, r, ray_t, i, best) {
            Some(rec) => lo <= rec.t <= hi,
            None => true,
        },
    decreases objects, 1int, objects.len() - i,
{
    if 0 <= i < objects.len() {
        lemma_hit_within(objects[i], r, ray_t);
        match objects[i].hit_s(r, ray_t) {
            Some(rec) => {
                lemma_list_hit_within(
                    objects,
                    r,
                    Interval { min: ray_t.min, max: rec.t },
                    i + 1,
                    Some(rec),
                    lo,
                    hi,
                );
            },
            None => {
                lemma_list_hit_within(objects, r, ray_t, i + 1, best, lo, hi);
            },
        }
    }
}

/// Any hit any geometry reports has its parameter inside the query
/// range: callers that shrink the range's upper end to a found hit
/// are therefore always handed a nearest-so-far intersection.
pub proof fn lemma_hit_within(h: Hittable, r: Ray, ray_t: Interval)
    ensures
        match h.hit_s(r, ray_t) {
            Some(rec) => ray_t.min <= rec.t <= ray_t.max,
            None => true,
        },
    decreases h, 0int, 0int,
{
    match h {
        Hittable::Sphere(_) => {},
        Hittable::Quad(_) => {},
        Hittable::List(l) => {
            lemma_list_hit_within(l.objects@, r, ray_t, 0, None, ray_t.min, ray_t.max);
        },
        Hittable::Bvh(n) => {
            if aabb_hit_s(n.aabb, r, ray_t) {
                lemma_hit_within(*n.l, r, ray_t);
                let shrunk = match (*n.l).hit_s(r, ray_t) {
                    Some(rec) => Interval { min: ray_t.min, max: rec.t },
                    None => ray_t,
                };
                lemma_hit_within(*n.r, r, shrunk);
            }
        },
        Hittable::Translated(tr) => {
            let local = Ray {
                origin: vsub_s(r.origin, tr.offset),
                direct: r.direct,
                time: r.time,
            };
            lemma_hit_within(*tr.object, local, ray_t);
        },
        Hittable::Rotated(ro) => {
            let local = Ray {
                origin: unrotate_s(ro.sin, ro.cos, ro.axis as int, r.origin),
                direct: unrotate_s(ro.sin, ro.cos, ro.axis as int, r.direct),
                time: r.time,
            };
            lemma_hit_within(*ro.object, local, ray_t);
        },
    }
}

/// The combined box of a sequence of objects, folded from the empty box.
pub open spec fn list_box_s(objects: Seq<Hittable>) -> AABB
    decreases objects.len(),
{
    if objects.len() == 0 {
        AABB {
            x: Interval { min: FX_SAT, max: ((-FX_SAT) as i64) },
            y: Interval { min: FX_SAT, max: ((-FX_SAT) as i64) },
            z: Interval { min: FX_SAT, max: ((-FX_SAT) as i64) },
        }
    } else {
        let prior = list_box_s(objects.drop_last());
        let last = objects.last().bbox_s();
        AABB {
            x: combine_s(prior.x, last.x),
            y: combine_s(prior.y, last.y),
            z: combine_s(prior.z, last.z),
        }
    }
}

impl HittableList {
    /// An empty collection with the empty box.
    pub fn new() -> (r: HittableList)
        ensures
            r.objects@ == Seq::<Hittable>::empty(),
            r.aabb == AABB::empty_s(),
    {
        HittableList { objects: Vec::new(), aabb: AABB::empty() }
    }

    /// An empty collection with room reserved for `capacity` objects.
    pub fn with_capacity(capacity: usize) -> (r: HittableList)
        ensures
            r.objects@ == Seq::<Hittable>::empty(),
            r.aabb == AABB::empty_s(),
    {
        HittableList { objects: Vec::with_capacity(capacity), aabb: AABB::empty() }
    }

    /// Remove every object and reset the cached box.
    pub fn clear(&mut self)
        ensures
            final(self).objects@ == Seq::<Hittable>::empty(),
            final(self).aabb == AABB::empty_s(),
    {
        self.objects.clear();
        self.aabb = AABB::empty();
    }

    /// Append an object, folding its box into the cached union.
    pub fn add(&mut self, object: Hittable)
        ensures
            final(self).objects@ == old(self).objects@.push(object),
            final(self).aabb == old(self).aabb.combined_s(object.bbox_s()),
    {
        let b = object.bounding_box();
        self.aabb = self.aabb.combine(b);
        self.objects.push(object);
    }

    /// Wrap a vector of objects, computing the combined box.
    pub fn from_vec(objects: Vec<Hittable>) -> (r: HittableList)
        ensures
            r.objects@ == objects@,
            r.aabb == list_box_s(objects@),
    {
        let mut aabb = AABB::empty();
        let n: usize = objects.len();
        let mut i: usize = 0;
        while i < n
            invariant
                0 <= i <= n,
                n == objects@.len(),
                aabb == list_box_s(objects@.take(i as int)),
            decreases n - i,
        {
            proof {
                assert(objects@.take(i as int + 1).drop_last() == objects@.take(i as int));
                assert(objects@.take(i as int + 1).last() == objects@[i as int]);
            }
            aabb = aabb.combine(objects[i].bounding_box());
            i = i + 1;
        }
        proof {
            assert(objects@.take(n as int) == objects@);
        }
        HittableList { objects, aabb }
    }

    /// The nearest hit over all objects: the query range's upper end is
    /// pulled down to each hit found, so only still-nearer hits follow.
    pub fn hit(&self, ray: &Ray, ray_t: Interval) -> (res: Option<HitRecord>)
        ensures
            res == list_hit_from_s(self.objects@, *ray, ray_t, 0, None),
        decreases self.objects@, 1int, 0int,
    {
        let mut hit_record: Option<HitRecord> = None;
        let mut cur_t: Interval = ray_t;
        let n: usize = self.objects.len();
        let mut i: usize = 0;
        while i < n
            invariant
                0 <= i <= n,
                n == self.objects@.len(),
                list_hit_from_s(self.objects@, *ray, ray_t, 0, None) == list_hit_from_s(
                    self.objects@,
                    *ray,
                    cur_t,
                    i as int,
                    hit_record,
                ),
                match hit_record {
                    Some(rec) => cur_t == Interval { min: ray_t.min, max: rec.t },
                    None => cur_t == ray_t,
                },
            decreases n - i,
        {
            let h = self.objects[i].hit(ray, cur_t);
            if let Some(rec) = h {
                cur_t = Interval { min: cur_t.min, max: rec.t };
                hit_record = Some(rec);
            }
            i = i + 1;
        }
        hit_record
    }

    /// The cached combined bounding box.
    pub fn bounding_box(&self) -> (r: AABB)
        ensures
            r == self.aabb,
    {
        self.aabb
    }
}

} // verus!
