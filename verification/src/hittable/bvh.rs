//! The bounding-volume hierarchy.

use vstd::multiset::Multiset;
use vstd::prelude::*;

use super::aabb::{aabb_hit_s, AABB};
use super::interval::Interval;
use super::{bvh_node_hit_s, list_hit_from_s, HitRecord, Hittable};
use crate::ray::Ray;

verus! {

/// A binary tree node: two children and the union of their boxes.
pub struct BvhNode {
    pub l: Box<Hittable>,
    pub r: Box<Hittable>,
    pub aabb: AABB,
}

/// The primitives under a subtree, left to right; anything that is not
/// itself a node counts as one leaf.
pub open spec fn leaves_s(h: Hittable) -> Seq<Hittable>
    decreases h, 0int,
{
    match h {
        Hittable::Bvh(n) => leaves_s(*n.l) + leaves_s(*n.r),
        _ => seq![h],
    }
}

/// The multiset of primitives under every object of a sequence.
pub open spec fn seq_leaves_ms(s: Seq<Hittable>) -> Multiset<Hittable>
    decreases s.len(),
{
    if s.len() == 0 {
        Multiset::<Hittable>::empty()
    } else {
        seq_leaves_ms(s.drop_last()).add(leaves_s(s.last()).to_multiset())
    }
}

/// Every node's cached box is the union of its children's boxes.
pub open spec fn bvh_wf_s(h: Hittable) -> bool
    decreases h, 0int,
{
    match h {
        Hittable::Bvh(n) => {
            &&& n.aabb == (*n.l).bbox_s().combined_s((*n.r).bbox_s())
            &&& bvh_wf_s(*n.l)
            &&& bvh_wf_s(*n.r)
        },
        _ => true,
    }
}

/// The construction split key: the low end of an object's box along
/// the splitting axis.
pub open spec fn key_s(h: Hittable, axis: int) -> i64 {
    if axis % 3 == 0 {
        h.bbox_s().x.min
    } else if axis % 3 == 1 {
        h.bbox_s().y.min
    } else {
        h.bbox_s().z.min
    }
}

/// Removing element `i` takes exactly its leaves out of a sequence's
/// leaf multiset.
proof fn lemma_seq_leaves_ms_remove(s: Seq<Hittable>, i: int)
    requires
        0 <= i < s.len(),
    ensures
        seq_leaves_ms(s) =~= seq_leaves_ms(s.remove(i)).add(leaves_s(s[i]).to_multiset()),
    decreases s.len(),
{
    if i == s.len() - 1 {
        assert(s.remove(i) =~= s.drop_last());
    } else {
        lemma_seq_leaves_ms_remove(s.drop_last(), i);
        assert(s.remove(i).drop_last() =~= s.drop_last().remove(i));
        assert(s.remove(i).last() == s.last());
    }
}

/// Sequences with the same object multiset have the same leaf multiset.
proof fn lemma_perm_seq_leaves(s1: Seq<Hittable>, s2: Seq<Hittable>)
    requires
        s1.to_multiset() == s2.to_multiset(),
    ensures
        seq_leaves_ms(s1) == seq_leaves_ms(s2),
    decreases s1.len(),
{
    broadcast use vstd::seq_lib::group_to_multiset_ensures;
    broadcast use vstd::multiset::group_multiset_axioms;

    assert(s1.to_multiset().len() == s1.len());
    assert(s2.to_multiset().len() == s2.len());
    if s1.len() == 0 {
        assert(s2.len() == 0);
        assert(seq_leaves_ms(s1) =~= seq_leaves_ms(s2));
    } else {
        let x = s1.last();
        assert(s1.to_multiset().count(x) > 0) by {
            assert(s1.contains(x));
        }
        assert(s2.contains(x));
        let i = choose|i: int| 0 <= i < s2.len() && s2[i] == x;
        assert(s1.drop_last() =~= s1.remove(s1.len() - 1));
        lemma_perm_seq_leaves(s1.drop_last(), s2.remove(i));
        lemma_seq_leaves_ms_remove(s2, i);
        assert(seq_leaves_ms(s1) =~= seq_leaves_ms(s1.drop_last()).add(
            leaves_s(x).to_multiset(),
        ));
        assert(seq_leaves_ms(s1) =~= seq_leaves_ms(s2));
    }
}

/// Concatenation adds leaf multisets.
proof fn lemma_seq_leaves_ms_concat(a: Seq<Hittable>, b: Seq<Hittable>)
    ensures
        seq_leaves_ms(a + b) =~= seq_leaves_ms(a).add(seq_leaves_ms(b)),
    decreases b.len(),
{
    if b.len() == 0 {
        assert(a + b =~= a);
    } else {
        lemma_seq_leaves_ms_concat(a, b.drop_last());
        assert((a + b).drop_last() =~= a + b.drop_last());
        assert((a + b).last() == b.last());
    }
}

/// A two-object sequence's leaf multiset is the two leaf multisets added.
proof fn lemma_seq_leaves_ms_pair(a: Hittable, b: Hittable, s: Seq<Hittable>)
    requires
        s.len() == 2,
        s[0] == a,
        s[1] == b,
    ensures
        seq_leaves_ms(s) =~= leaves_s(a).to_multiset().add(leaves_s(b).to_multiset()),
{
    broadcast use vstd::multiset::group_multiset_axioms;

    assert(s.drop_last().drop_last() =~= Seq::<Hittable>::empty());
    assert(seq_leaves_ms(s.drop_last().drop_last()) =~= Multiset::<Hittable>::empty());
    assert(s.drop_last().last() == a);
    assert(s.last() == b);
    assert(seq_leaves_ms(s.drop_last()) =~= leaves_s(a).to_multiset());
}

impl BvhNode {
    /// A pair node over two children.
    pub fn from_two(l: Hittable, r: Hittable) -> (res: BvhNode)
        ensures
            *res.l == l,
            *res.r == r,
            res.aabb == l.bbox_s().combined_s(r.bbox_s()),
    {
        let aabb = l.bounding_box().combine(r.bounding_box());
        BvhNode { l: Box::new(l), r: Box::new(r), aabb }
    }

    /// Build a tree over at least two objects: every node's box is the
    /// union of its children's, and no primitive is lost or invented.
    pub fn new(objects: Vec<Hittable>) -> (res: BvhNode)
        requires
            objects@.len() >= 2,
            forall|i: int| 0 <= i < objects@.len() ==> bvh_wf_s(#[trigger] objects@[i]),
        ensures
            bvh_wf_s(Hittable::Bvh(res)),
            leaves_s(Hittable::Bvh(res)).to_multiset() == seq_leaves_ms(objects@),
    {
        Self::construct(objects, 0)
    }

    /// Recursive median-split construction. Two objects become one pair
    /// node; three become a nested pair plus the third; more are
    /// partitioned at their median position by box low-end on the
    /// splitting axis — a selection, not a sort — and recursed with
    /// the next axis.
    pub fn construct(objects: Vec<Hittable>, axis: usize) -> (res: BvhNode)
        requires
            objects@.len() >= 2,
            axis < 3,
            forall|i: int| 0 <= i < objects@.len() ==> bvh_wf_s(#[trigger] objects@[i]),
        ensures
            bvh_wf_s(Hittable::Bvh(res)),
            leaves_s(Hittable::Bvh(res)).to_multiset() == seq_leaves_ms(objects@),
            objects@.len() == 2 ==> *res.l == objects@[0] && *res.r == objects@[1],
            objects@.len() == 3 ==> (match *res.l {
                Hittable::Bvh(inner) => *inner.l == objects@[0] && *inner.r == objects@[1],
                _ => false,
            }) && *res.r == objects@[2],
        decreases objects@.len(),
    {
        let ghost orig: Seq<Hittable> = objects@;
        let mut objects = objects;
        if objects.len() == 2 {
            let b = match objects.pop() {
                Some(v) => v,
                None => unreached(),
            };
            let a = match objects.pop() {
                Some(v) => v,
                None => unreached(),
            };
            let res = Self::from_two(a, b);
            proof {
                assert(a == orig[0] && b == orig[1]);
                assert(bvh_wf_s(orig[0]) && bvh_wf_s(orig[1]));
                vstd::seq_lib::lemma_multiset_commutative(leaves_s(a), leaves_s(b));
                lemma_seq_leaves_ms_pair(a, b, orig);
            }
            return res;
        }
        if objects.len() == 3 {
            let c = match objects.pop() {
                Some(v) => v,
                None => unreached(),
            };
            let b = match objects.pop() {
                Some(v) => v,
                None => unreached(),
            };
            let a = match objects.pop() {
                Some(v) => v,
                None => unreached(),
            };
            let node_a = Self::from_two(a, b);
            let res = Self::from_two(Hittable::Bvh(node_a), c);
            proof {
                broadcast use vstd::multiset::group_multiset_axioms;

                assert(a == orig[0] && b == orig[1] && c == orig[2]);
                assert(bvh_wf_s(orig[0]) && bvh_wf_s(orig[1]) && bvh_wf_s(orig[2]));
                assert(bvh_wf_s(Hittable::Bvh(node_a)));
                vstd::seq_lib::lemma_multiset_commutative(leaves_s(a), leaves_s(b));
                vstd::seq_lib::lemma_multiset_commutative(
                    leaves_s(Hittable::Bvh(node_a)),
                    leaves_s(c),
                );
                assert(orig.drop_last().drop_last().drop_last() =~= Seq::<Hittable>::empty());
                assert(seq_leaves_ms(orig.drop_last().drop_last().drop_last())
                    =~= Multiset::<Hittable>::empty());
                assert(orig.drop_last().drop_last().last() == a);
                assert(orig.drop_last().last() == b);
                assert(orig.last() == c);
                assert(seq_leaves_ms(orig.drop_last().drop_last()) =~= leaves_s(a).to_multiset());
                assert(seq_leaves_ms(orig.drop_last()) =~= leaves_s(a).to_multiset().add(
                    leaves_s(b).to_multiset(),
                ));
                assert(leaves_s(Hittable::Bvh(res)).to_multiset() =~= seq_leaves_ms(orig));
            }
            return res;
        }
        let mid: usize = objects.len() / 2;
        let halves = split_at_median(objects, mid, axis);
        let left = halves.0;
        let right = halves.1;
        let next_axis: usize = (axis + 1) % 3;
        proof {
            broadcast use vstd::seq_lib::group_to_multiset_ensures;
            broadcast use vstd::multiset::group_multiset_axioms;

            vstd::seq_lib::lemma_multiset_commutative(left@, right@);
            assert((left@ + right@).to_multiset() == orig.to_multiset());
            assert forall|i: int| 0 <= i < left@.len() implies bvh_wf_s(#[trigger] left@[i]) by {
                assert(left@.contains(left@[i]));
                assert(left@.to_multiset().count(left@[i]) > 0);
                assert(orig.to_multiset().count(left@[i]) > 0);
                assert(orig.contains(left@[i]));
                let j = choose|j: int| 0 <= j < orig.len() && orig[j] == left@[i];
                assert(bvh_wf_s(orig[j]));
            };
            assert forall|i: int| 0 <= i < right@.len() implies bvh_wf_s(#[trigger] right@[i]) by {
                assert(right@.contains(right@[i]));
                assert(right@.to_multiset().count(right@[i]) > 0);
                assert(orig.to_multiset().count(right@[i]) > 0);
                assert(orig.contains(right@[i]));
                let j = choose|j: int| 0 <= j < orig.len() && orig[j] == right@[i];
                assert(bvh_wf_s(orig[j]));
            };
        }
        let l = Self::construct(left, next_axis);
        let r = Self::construct(right, next_axis);
        let res = Self::from_two(Hittable::Bvh(l), Hittable::Bvh(r));
        proof {
            vstd::seq_lib::lemma_multiset_commutative(
                leaves_s(Hittable::Bvh(l)),
                leaves_s(Hittable::Bvh(r)),
            );
            lemma_seq_leaves_ms_concat(left@, right@);
            lemma_perm_seq_leaves(left@ + right@, orig);
        }
        res
    }

    /// Prune on the box, probe left, then probe right with the range
    /// shrunk to the left hit; a right answer is the nearer one.
    pub fn hit(&self, ray: &Ray, ray_t: Interval) -> (res: Option<HitRecord>)
        ensures
            res == bvh_node_hit_s(*self, *ray, ray_t),
        decreases *self, 1int, 0int,
    {
        if !self.aabb.hit(ray, ray_t) {
            return None;
        }
        let hit_l = self.l.hit(ray, ray_t);
        let shrunk: Interval = match &hit_l {
            Some(rec) => Interval { min: ray_t.min, max: rec.t },
            None => ray_t,
        };
        let hit_r = self.r.hit(ray, shrunk);
        match hit_r {
            Some(rec) => Some(rec),
            None => hit_l,
        }
    }

    /// The cached bounding box.
    pub fn bounding_box(&self) -> (r: AABB)
        ensures
            r == self.aabb,
    {
        self.aabb
    }
}

/// The query range narrowed to a hit found so far.
pub open spec fn narrowed_s(t: Interval, best: Option<HitRecord>) -> Interval {
    match best {
        Some(rec) => Interval { min: t.min, max: rec.t },
        None => t,
    }
}

/// The scan state is consistent: a carried best hit has already pulled
/// the range's upper end down to its own parameter.
pub open spec fn tracks_s(t: Interval, best: Option<HitRecord>) -> bool {
    match best {
        Some(rec) => t.max == rec.t,
        None => true,
    }
}

/// The linear scan over a sequence of objects, structurally: probe the
/// first, shrink the range on a hit, carry the best hit rightward.
pub open spec fn scan_s(
    s: Seq<Hittable>,
    r: Ray,
    t: Interval,
    best: Option<HitRecord>,
) -> Option<HitRecord>
    decreases s.len(),
{
    if s.len() == 0 {
        best
    } else {
        match s[0].hit_s(r, t) {
            Some(rec) => scan_s(s.drop_first(), r, Interval { min: t.min, max: rec.t }, Some(rec)),
            None => scan_s(s.drop_first(), r, t, best),
        }
    }
}

/// The indexed scan (the list form) is the structural scan of the
/// remaining suffix.
pub proof fn lemma_scan_shift(
    s: Seq<Hittable>,
    r: Ray,
    t: Interval,
    i: int,
    best: Option<HitRecord>,
)
    requires
        0 <= i <= s.len(),
    ensures
        list_hit_from_s(s, r, t, i, best) == scan_s(s.skip(i), r, t, best),
    decreases s.len() - i,
{
    if i == s.len() {
        assert(s.skip(i) =~= Seq::<Hittable>::empty());
    } else {
        assert(s.skip(i)[0] == s[i]);
        assert(s.skip(i).drop_first() =~= s.skip(i + 1));
        match s[i].hit_s(r, t) {
            Some(rec) => {
                lemma_scan_shift(s, r, Interval { min: t.min, max: rec.t }, i + 1, Some(rec));
            },
            None => {
                lemma_scan_shift(s, r, t, i + 1, best);
            },
        }
    }
}

/// Scanning a concatenation is scanning the first part, then the
/// second from the state the first part left behind.
#[verifier::rlimit(100)]
#[verifier::spinoff_prover]
proof fn lemma_scan_concat(
    a: Seq<Hittable>,
    b: Seq<Hittable>,
    r: Ray,
    t: Interval,
    best: Option<HitRecord>,
)
    requires
        tracks_s(t, best),
    ensures
        ({
            let ha = scan_s(a, r, t, best);
            scan_s(a + b, r, t, best) == scan_s(b, r, narrowed_s(t, ha), ha)
        }),
    decreases a.len(),
{
    if a.len() == 0 {
        assert(a + b =~= b);
        assert(narrowed_s(t, best) == t);
    } else {
        assert((a + b)[0] == a[0]);
        assert((a + b).drop_first() =~= a.drop_first() + b);
        match a[0].hit_s(r, t) {
            Some(rec) => {
                lemma_scan_concat(
                    a.drop_first(),
                    b,
                    r,
                    Interval { min: t.min, max: rec.t },
                    Some(rec),
                );
                lemma_scan_carried_some(
                    a.drop_first(),
                    r,
                    Interval { min: t.min, max: rec.t },
                    rec,
                );
            },
            None => {
                lemma_scan_concat(a.drop_first(), b, r, t, best);
            },
        }
    }
}

/// A scan that carries a best hit in can only answer with a hit.
proof fn lemma_scan_carried_some(s: Seq<Hittable>, r: Ray, t: Interval, rec: HitRecord)
    ensures
        scan_s(s, r, t, Some(rec)) is Some,
    decreases s.len(),
{
    if s.len() == 0 {
    } else {
        match s[0].hit_s(r, t) {
            Some(rec2) => {
                lemma_scan_carried_some(
                    s.drop_first(),
                    r,
                    Interval { min: t.min, max: rec2.t },
                    rec2,
                );
            },
            None => {
                lemma_scan_carried_some(s.drop_first(), r, t, rec);
            },
        }
    }
}

/// Carrying a best hit into a scan is the same as scanning fresh and
/// falling back to the carried hit when nothing is found: acceptance
/// depends only on the query range, which the carried hit has already
/// narrowed.
proof fn lemma_scan_carried(s: Seq<Hittable>, r: Ray, t: Interval, rec: HitRecord)
    ensures
        scan_s(s, r, t, Some(rec)) == match scan_s(s, r, t, None) {
            Some(r2) => Some(r2),
            None => Some(rec),
        },
    decreases s.len(),
{
    if s.len() == 0 {
    } else {
        match s[0].hit_s(r, t) {
            Some(rec2) => {
                lemma_scan_carried_some(
                    s.drop_first(),
                    r,
                    Interval { min: t.min, max: rec2.t },
                    rec2,
                );
            },
            None => {
                lemma_scan_carried(s.drop_first(), r, t, rec);
            },
        }
    }
}

/// Pruning is conservative for this ray: wherever a node's box test
/// fails, no primitive under that node hits within the failed range;
/// and so on below. With exact arithmetic this follows from each box
/// containing its subtree's geometry; here it is the stated premise.
pub open spec fn prune_safe_s(h: Hittable, r: Ray) -> bool
    decreases h,
{
    match h {
        Hittable::Bvh(n) => {
            &&& forall|t: Interval|
                !#[trigger] aabb_hit_s(n.aabb, r, t) ==> scan_s(
                    leaves_s(Hittable::Bvh(n)),
                    r,
                    t,
                    None,
                ) is None
            &&& prune_safe_s(*n.l, r)
            &&& prune_safe_s(*n.r, r)
        },
        _ => true,
    }
}

/// The acceleration structure answers exactly as the linear scan over
/// its primitives, for every ray and range on which its pruning is
/// conservative: a missed box loses nothing, and probing the right
/// child with the range narrowed to the left hit makes any right
/// answer the strictly nearer one, so preferring it is the nearest
/// hit overall.
pub proof fn lemma_bvh_matches_scan(h: Hittable, r: Ray, t: Interval)
    requires
        prune_safe_s(h, r),
    ensures
        h.hit_s(r, t) == scan_s(leaves_s(h), r, t, None),
    decreases h,
{
    match h {
        Hittable::Bvh(n) => {
            assert(h.hit_s(r, t) == bvh_node_hit_s(n, r, t));
            assert(leaves_s(h) == leaves_s(*n.l) + leaves_s(*n.r));
            if !aabb_hit_s(n.aabb, r, t) {
                assert(scan_s(leaves_s(h), r, t, None) is None);
                assert(bvh_node_hit_s(n, r, t) is None);
            } else {
                lemma_bvh_matches_scan(*n.l, r, t);
                let hl = (*n.l).hit_s(r, t);
                let t2 = narrowed_s(t, hl);
                lemma_bvh_matches_scan(*n.r, r, t2);
                let hr = (*n.r).hit_s(r, t2);
                lemma_scan_concat(leaves_s(*n.l), leaves_s(*n.r), r, t, None);
                assert(scan_s(leaves_s(h), r, t, None) == scan_s(leaves_s(*n.r), r, t2, hl));
                match hl {
                    Some(rec) => {
                        lemma_scan_carried(leaves_s(*n.r), r, t2, rec);
                        assert(scan_s(leaves_s(*n.r), r, t2, hl) == match hr {
                            Some(r2) => Some(r2),
                            None => hl,
                        });
                    },
                    None => {},
                }
                assert(bvh_node_hit_s(n, r, t) == match hr {
                    Some(r2) => Some(r2),
                    None => hl,
                });
            }
        },
        _ => {
            let lv = leaves_s(h);
            assert(lv =~= seq![h]);
            assert(lv[0] == h);
            assert(lv.drop_first() =~= Seq::<Hittable>::empty());
            match h.hit_s(r, t) {
                Some(rec) => {
                    assert(scan_s(
                        lv.drop_first(),
                        r,
                        Interval { min: t.min, max: rec.t },
                        Some(rec),
                    ) == Some(rec));
                },
                None => {
                    assert(scan_s(lv.drop_first(), r, t, None) is None);
                },
            }
        },
    }
}

/// Traversal invents nothing, with no premise at all: whatever hit the
/// tree reports is the answer of one of its primitives to a query range
/// with the same lower end and an upper end no larger, so pruning can
/// at worst lose hits, never fabricate them.
pub proof fn lemma_bvh_hit_sound(h: Hittable, r: Ray, ray_t: Interval)
    ensures
        match h.hit_s(r, ray_t) {
            Some(rec) => exists|k: int, sub: Interval|
                0 <= k < leaves_s(h).len() && sub.min == ray_t.min && sub.max <= ray_t.max
                    && #[trigger] leaves_s(h)[k].hit_s(r, sub) == Some(rec),
            None => true,
        },
    decreases h,
{
    match h {
        Hittable::Bvh(n) => {
            if aabb_hit_s(n.aabb, r, ray_t) {
                let ll = leaves_s(*n.l);
                let lr = leaves_s(*n.r);
                assert(leaves_s(h) == ll + lr);
                lemma_bvh_hit_sound(*n.l, r, ray_t);
                super::lemma_hit_within(*n.l, r, ray_t);
                let hl = (*n.l).hit_s(r, ray_t);
                let t2 = narrowed_s(ray_t, hl);
                lemma_bvh_hit_sound(*n.r, r, t2);
                let hr = (*n.r).hit_s(r, t2);
                match hr {
                    Some(rec) => {
                        let (k2, sub2) = choose|k2: int, sub2: Interval|
                            0 <= k2 < lr.len() && sub2.min == t2.min && sub2.max <= t2.max
                                && #[trigger] lr[k2].hit_s(r, sub2) == Some(rec);
                        assert(leaves_s(h)[ll.len() + k2] == lr[k2]);
                        assert(leaves_s(h)[ll.len() + k2].hit_s(r, sub2) == Some(rec));
                    },
                    None => {
                        match hl {
                            Some(rec) => {
                                let (k1, sub1) = choose|k1: int, sub1: Interval|
                                    0 <= k1 < ll.len() && sub1.min == ray_t.min && sub1.max
                                        <= ray_t.max && #[trigger] ll[k1].hit_s(r, sub1) == Some(
                                        rec,
                                    );
                                assert(leaves_s(h)[k1] == ll[k1]);
                                assert(leaves_s(h)[k1].hit_s(r, sub1) == Some(rec));
                            },
                            None => {},
                        }
                    },
                }
            }
        },
        _ => {
            assert(leaves_s(h) =~= seq![h]);
            match h.hit_s(r, ray_t) {
                Some(rec) => {
                    assert(leaves_s(h)[0].hit_s(r, ray_t) == Some(rec));
                },
                None => {},
            }
        },
    }
}

/// The same statement against the list scan as `HittableList` performs
/// it: with conservative pruning, the tree and the flat scan agree on
/// every query.
pub proof fn lemma_bvh_hit_equals_linear_scan(h: Hittable, r: Ray, t: Interval)
    requires
        prune_safe_s(h, r),
    ensures
        h.hit_s(r, t) == list_hit_from_s(leaves_s(h), r, t, 0, None),
{
    lemma_bvh_matches_scan(h, r, t);
    lemma_scan_shift(leaves_s(h), r, t, 0, None);
    assert(leaves_s(h).skip(0) =~= leaves_s(h));
}

/// The key of an object along an axis.
fn key_of(h: &Hittable, axis: usize) -> (r: i64)
    requires
        axis < 3,
    ensures
        r == key_s(*h, axis as int),
{
    let b = h.bounding_box();
    if axis == 0 {
        b.x.min
    } else if axis == 1 {
        b.y.min
    } else {
        b.z.min
    }
}

/// Split a collection at position `k` by key, quickselect style: the
/// left part holds exactly `k` objects, every one keyed at or below
/// every object of the right part. Three-way partitioning around a
/// pivot and recursing into one side finds the median position without
/// sorting either side.
fn split_at_median(objects: Vec<Hittable>, k: usize, axis: usize) -> (r: (
    Vec<Hittable>,
    Vec<Hittable>,
))
    requires
        axis < 3,
        k <= objects@.len(),
    ensures
        r.0@.len() == k,
        r.0@.len() + r.1@.len() == objects@.len(),
        r.0@.to_multiset().add(r.1@.to_multiset()) == objects@.to_multiset(),
        forall|i: int, j: int|
            0 <= i < r.0@.len() && 0 <= j < r.1@.len() ==> key_s(#[trigger] r.0@[i], axis as int)
                <= key_s(#[trigger] r.1@[j], axis as int),
    decreases objects@.len(),
{
    broadcast use vstd::seq_lib::group_to_multiset_ensures;
    broadcast use vstd::multiset::group_multiset_axioms;

    let ghost orig: Seq<Hittable> = objects@;
    if k == 0 {
        let left: Vec<Hittable> = Vec::new();
        proof {
            assert(left@.to_multiset().add(objects@.to_multiset()) =~= objects@.to_multiset());
        }
        return (left, objects);
    }
    if k == objects.len() {
        let right: Vec<Hittable> = Vec::new();
        proof {
            assert(objects@.to_multiset().add(right@.to_multiset()) =~= objects@.to_multiset());
        }
        return (objects, right);
    }
    let pivot: i64 = key_of(&objects[0], axis);
    let mut rest = objects;
    let mut lt: Vec<Hittable> = Vec::new();
    let mut eq: Vec<Hittable> = Vec::new();
    let mut gt: Vec<Hittable> = Vec::new();
    proof {
        assert(rest@ =~= orig.subrange(0, rest@.len() as int));
        assert(lt@.to_multiset().add(eq@.to_multiset()).add(gt@.to_multiset()).add(
            rest@.to_multiset(),
        ) =~= orig.to_multiset());
    }
    while rest.len() > 0
        invariant
            axis < 3,
            orig.len() > 0,
            rest@ == orig.subrange(0, rest@.len() as int),
            pivot == key_s(orig[0], axis as int),
            lt@.to_multiset().add(eq@.to_multiset()).add(gt@.to_multiset()).add(
                rest@.to_multiset(),
            ) == orig.to_multiset(),
            lt@.len() + eq@.len() + gt@.len() + rest@.len() == orig.len(),
            forall|i: int| 0 <= i < lt@.len() ==> key_s(#[trigger] lt@[i], axis as int) < pivot,
            forall|i: int| 0 <= i < eq@.len() ==> key_s(#[trigger] eq@[i], axis as int) == pivot,
            forall|i: int| 0 <= i < gt@.len() ==> key_s(#[trigger] gt@[i], axis as int) > pivot,
            eq@.len() > 0 || rest@.len() > 0,
        decreases rest@.len(),
    {
        let ghost rest_before: Seq<Hittable> = rest@;
        let x = match rest.pop() {
            Some(v) => v,
            None => unreached(),
        };
        proof {
            broadcast use vstd::seq_lib::group_to_multiset_ensures;
            broadcast use vstd::multiset::group_multiset_axioms;

            assert(rest@ =~= orig.subrange(0, rest@.len() as int));
            assert(rest_before.remove(rest_before.len() - 1) =~= rest@);
            assert(rest_before.contains(x)) by {
                assert(rest_before[rest_before.len() - 1] == x);
            }
            assert(rest@.to_multiset() =~= rest_before.to_multiset().remove(x));
            if rest_before.len() == 1 {
                assert(x == orig[0]);
            }
        }
        let kx: i64 = key_of(&x, axis);
        if kx < pivot {
            lt.push(x);
            proof {
                broadcast use vstd::seq_lib::group_to_multiset_ensures;
                broadcast use vstd::multiset::group_multiset_axioms;

                assert(lt@.to_multiset().add(eq@.to_multiset()).add(gt@.to_multiset()).add(
                    rest@.to_multiset(),
                ) =~= orig.to_multiset());
            }
        } else if kx == pivot {
            eq.push(x);
            proof {
                broadcast use vstd::seq_lib::group_to_multiset_ensures;
                broadcast use vstd::multiset::group_multiset_axioms;

                assert(lt@.to_multiset().add(eq@.to_multiset()).add(gt@.to_multiset()).add(
                    rest@.to_multiset(),
                ) =~= orig.to_multiset());
            }
        } else {
            gt.push(x);
            proof {
                broadcast use vstd::seq_lib::group_to_multiset_ensures;
                broadcast use vstd::multiset::group_multiset_axioms;

                assert(lt@.to_multiset().add(eq@.to_multiset()).add(gt@.to_multiset()).add(
                    rest@.to_multiset(),
                ) =~= orig.to_multiset());
            }
        }
    }
    proof {
        assert(rest@.to_multiset() =~= Multiset::<Hittable>::empty());
        assert(lt@.to_multiset().add(eq@.to_multiset()).add(gt@.to_multiset())
            =~= orig.to_multiset());
    }
    let ghost lt_v: Seq<Hittable> = lt@;
    let ghost eq_v: Seq<Hittable> = eq@;
    let ghost gt_v: Seq<Hittable> = gt@;
    if k <= lt.len() {
        let halves = split_at_median(lt, k, axis);
        let a = halves.0;
        let mut right = halves.1;
        let ghost b_v: Seq<Hittable> = right@;
        right.append(&mut eq);
        right.append(&mut gt);
        proof {
            assert(right@ =~= b_v + eq_v + gt_v);
            vstd::seq_lib::lemma_multiset_commutative(b_v, eq_v);
            vstd::seq_lib::lemma_multiset_commutative(b_v + eq_v, gt_v);
            assert(a@.to_multiset().add(right@.to_multiset()) =~= orig.to_multiset());
            assert forall|i: int, j: int|
                0 <= i < a@.len() && 0 <= j < right@.len() implies key_s(
                #[trigger] a@[i],
                axis as int,
            ) <= key_s(#[trigger] right@[j], axis as int) by {
                assert(a@.contains(a@[i]));
                assert(a@.to_multiset().count(a@[i]) > 0);
                assert(lt_v.to_multiset().count(a@[i]) > 0);
                assert(lt_v.contains(a@[i]));
                let m = choose|m: int| 0 <= m < lt_v.len() && lt_v[m] == a@[i];
                assert(key_s(lt_v[m], axis as int) < pivot);
                if j < b_v.len() {
                    assert(right@[j] == b_v[j]);
                } else if j < b_v.len() + eq_v.len() {
                    assert(right@[j] == eq_v[j - b_v.len()]);
                } else {
                    assert(right@[j] == gt_v[j - b_v.len() - eq_v.len()]);
                }
            }
        }
        (a, right)
    } else if k <= lt.len() + eq.len() {
        let need: usize = k - lt.len();
        let mut eqv = eq;
        let mut eq_right = eqv.split_off(need);
        let mut left = lt;
        left.append(&mut eqv);
        let mut right = eq_right;
        right.append(&mut gt);
        proof {
            assert(eq_v =~= eq_v.subrange(0, need as int) + eq_v.subrange(
                need as int,
                eq_v.len() as int,
            ));
            assert(left@ =~= lt_v + eq_v.subrange(0, need as int));
            assert(right@ =~= eq_v.subrange(need as int, eq_v.len() as int) + gt_v);
            vstd::seq_lib::lemma_multiset_commutative(lt_v, eq_v.subrange(0, need as int));
            vstd::seq_lib::lemma_multiset_commutative(
                eq_v.subrange(need as int, eq_v.len() as int),
                gt_v,
            );
            vstd::seq_lib::lemma_multiset_commutative(
                eq_v.subrange(0, need as int),
                eq_v.subrange(need as int, eq_v.len() as int),
            );
            assert(left@.to_multiset().add(right@.to_multiset()) =~= orig.to_multiset());
            assert forall|i: int, j: int|
                0 <= i < left@.len() && 0 <= j < right@.len() implies key_s(
                #[trigger] left@[i],
                axis as int,
            ) <= key_s(#[trigger] right@[j], axis as int) by {
                if i < lt_v.len() {
                    assert(left@[i] == lt_v[i]);
                } else {
                    assert(left@[i] == eq_v[i - lt_v.len()]);
                }
                if j < eq_v.len() - need {
                    assert(right@[j] == eq_v[need + j]);
                } else {
                    assert(right@[j] == gt_v[j - (eq_v.len() - need)]);
                }
            }
        }
        (left, right)
    } else {
        let kk: usize = k - lt.len() - eq.len();
        let halves = split_at_median(gt, kk, axis);
        let mut a = halves.0;
        let b = halves.1;
        let ghost a_v: Seq<Hittable> = a@;
        let mut left = lt;
        left.append(&mut eq);
        left.append(&mut a);
        proof {
            assert(left@ =~= lt_v + eq_v + a_v);
            vstd::seq_lib::lemma_multiset_commutative(lt_v, eq_v);
            vstd::seq_lib::lemma_multiset_commutative(lt_v + eq_v, a_v);
            assert(left@.to_multiset().add(b@.to_multiset()) =~= orig.to_multiset());
            assert forall|i: int, j: int|
                0 <= i < left@.len() && 0 <= j < b@.len() implies key_s(
                #[trigger] left@[i],
                axis as int,
            ) <= key_s(#[trigger] b@[j], axis as int) by {
                assert(b@.contains(b@[j]));
                assert(b@.to_multiset().count(b@[j]) > 0);
                assert(gt_v.to_multiset().count(b@[j]) > 0);
                assert(gt_v.contains(b@[j]));
                let m = choose|m: int| 0 <= m < gt_v.len() && gt_v[m] == b@[j];
                assert(key_s(gt_v[m], axis as int) > pivot);
                if i < lt_v.len() {
                    assert(left@[i] == lt_v[i]);
                } else if i < lt_v.len() + eq_v.len() {
                    assert(left@[i] == eq_v[i - lt_v.len()]);
                } else {
                    assert(left@[i] == a_v[i - lt_v.len() - eq_v.len()]);
                    assert(a_v.contains(a_v[i - lt_v.len() - eq_v.len()]));
                    assert(a_v.to_multiset().count(left@[i]) > 0);
                    assert(gt_v.to_multiset().count(left@[i]) > 0);
                    assert(gt_v.contains(left@[i]));
                    let m2 = choose|m2: int| 0 <= m2 < gt_v.len() && gt_v[m2] == left@[i];
                    assert(key_s(gt_v[m2], axis as int) > pivot);
                }
            }
        }
        (left, b)
    }
}

} // verus!
