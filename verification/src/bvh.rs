//! The bounding-volume hierarchy: a binary tree of boxes over shapes.
use vstd::prelude::*;
use std::sync::Arc;
use crate::aabb::{extent_callable, extent_fn, extent_functional, AABB, Slab};
use crate::bounds::{found_rightly, lemma_found_rightly};
use crate::hittable::{bounds_of, HitRecord, Hittable, HittableList, Probes};
use crate::interval::Interval;
use crate::quad::{PlaneCrossing, Quad};
use crate::ray::Ray;
use crate::scalar::Scalar;
use crate::sphere::{Sphere, SphereRoots, SurfacePoint};
use crate::vec::Axis;

verus! {

/// A node of the hierarchy: two children and the box around both. A node
/// over a single shape holds it as both children.
#[derive(Clone, Debug)]
pub struct BVHNode {
    pub left: Arc<Hittable>,
    pub right: Arc<Hittable>,
    pub bbox: AABB,
}

/// What shapes are ordered by along an axis: the lower bound of the box, by
/// its place in the total order of bit patterns.
pub open spec fn sort_key(h: Arc<Hittable>, axis: Axis) -> int {
    h.bounding_box_spec().axis_spec(axis).min.total_rank()
}

/// The row `sorted` with `x` put in behind every shape whose key is not
/// greater than its own.
pub open spec fn insert_spec(sorted: Seq<Arc<Hittable>>, x: Arc<Hittable>, axis: Axis) -> Seq<
    Arc<Hittable>,
>
    decreases sorted.len(),
{
    if sorted.len() == 0 {
        seq![x]
    } else if sort_key(sorted.last(), axis) <= sort_key(x, axis) {
        sorted.push(x)
    } else {
        insert_spec(sorted.drop_last(), x, axis).push(sorted.last())
    }
}

/// The first `n` shapes of a row in ascending order of their keys, shapes
/// with equal keys in the order in which they stood.
pub open spec fn sorted_spec(objects: Seq<Arc<Hittable>>, n: nat, axis: Axis) -> Seq<
    Arc<Hittable>,
>
    decreases n,
{
    if n == 0 || n > objects.len() {
        Seq::empty()
    } else {
        insert_spec(sorted_spec(objects, (n - 1) as nat, axis), objects[n - 1], axis)
    }
}

/// Putting a shape in makes the row longer by one.
pub proof fn lemma_insert_len(sorted: Seq<Arc<Hittable>>, x: Arc<Hittable>, axis: Axis)
    ensures
        insert_spec(sorted, x, axis).len() == sorted.len() + 1,
    decreases sorted.len(),
{
    if sorted.len() > 0 && !(sort_key(sorted.last(), axis) <= sort_key(x, axis)) {
        lemma_insert_len(sorted.drop_last(), x, axis);
    }
}

/// Sorting keeps the number of shapes.
pub proof fn lemma_sorted_len(objects: Seq<Arc<Hittable>>, n: nat, axis: Axis)
    requires
        n <= objects.len(),
    ensures
        sorted_spec(objects, n, axis).len() == n,
    decreases n,
{
    if n > 0 {
        lemma_sorted_len(objects, (n - 1) as nat, axis);
        lemma_insert_len(sorted_spec(objects, (n - 1) as nat, axis), objects[n - 1], axis);
    }
}

/// A row that was put into holds what it held before, and the new shape.
pub proof fn lemma_insert_members(sorted: Seq<Arc<Hittable>>, x: Arc<Hittable>, axis: Axis)
    ensures
        forall|y: Arc<Hittable>|
            insert_spec(sorted, x, axis).contains(y) <==> sorted.contains(y) || y == x,
    decreases sorted.len(),
{
    let out = insert_spec(sorted, x, axis);
    if sorted.len() == 0 {
        assert forall|y: Arc<Hittable>| out.contains(y) <==> sorted.contains(y) || y == x by {
            assert(out[0] == x);
            if out.contains(y) {
                let i = choose|i: int| 0 <= i < out.len() && out[i] == y;
                assert(out[i] == x);
            }
        }
    } else if sort_key(sorted.last(), axis) <= sort_key(x, axis) {
        assert forall|y: Arc<Hittable>| out.contains(y) <==> sorted.contains(y) || y == x by {
            assert(out[sorted.len() as int] == x);
            if sorted.contains(y) {
                let i = choose|i: int| 0 <= i < sorted.len() && sorted[i] == y;
                assert(out[i] == y);
            }
            if out.contains(y) {
                let i = choose|i: int| 0 <= i < out.len() && out[i] == y;
                if i < sorted.len() {
                    assert(sorted[i] == y);
                }
            }
        }
    } else {
        let head = sorted.drop_last();
        let mid = insert_spec(head, x, axis);
        lemma_insert_members(head, x, axis);
        lemma_insert_len(head, x, axis);
        assert forall|y: Arc<Hittable>| out.contains(y) <==> sorted.contains(y) || y == x by {
            assert(out[mid.len() as int] == sorted.last());
            assert(mid.contains(y) <==> head.contains(y) || y == x);
            if mid.contains(y) {
                let i = choose|i: int| 0 <= i < mid.len() && mid[i] == y;
                assert(out[i] == y);
            }
            if head.contains(y) {
                let j = choose|j: int| 0 <= j < head.len() && head[j] == y;
                assert(sorted[j] == y);
            }
            if sorted.contains(y) {
                let i = choose|i: int| 0 <= i < sorted.len() && sorted[i] == y;
                if i < head.len() {
                    assert(head[i] == y);
                } else {
                    assert(y == sorted.last());
                }
            }
            if out.contains(y) {
                let i = choose|i: int| 0 <= i < out.len() && out[i] == y;
                if i < mid.len() {
                    assert(mid[i] == y);
                } else {
                    assert(sorted[sorted.len() - 1] == y);
                }
            }
        }
    }
}

/// Putting a shape into an ascending row leaves the row ascending.
pub proof fn lemma_insert_ascending(sorted: Seq<Arc<Hittable>>, x: Arc<Hittable>, axis: Axis)
    requires
        forall|i: int, j: int|
            0 <= i <= j < sorted.len() ==> sort_key(sorted[i], axis) <= sort_key(sorted[j], axis),
    ensures
        forall|i: int, j: int|
            0 <= i <= j < insert_spec(sorted, x, axis).len() ==> sort_key(
                insert_spec(sorted, x, axis)[i],
                axis,
            ) <= sort_key(insert_spec(sorted, x, axis)[j], axis),
    decreases sorted.len(),
{
    let out = insert_spec(sorted, x, axis);
    if sorted.len() > 0 && !(sort_key(sorted.last(), axis) <= sort_key(x, axis)) {
        let head = sorted.drop_last();
        let mid = insert_spec(head, x, axis);
        lemma_insert_ascending(head, x, axis);
        lemma_insert_members(head, x, axis);
        lemma_insert_len(head, x, axis);
        assert forall|i: int, j: int| 0 <= i <= j < out.len() implies sort_key(out[i], axis)
            <= sort_key(out[j], axis) by {
            if j == mid.len() && i < mid.len() {
                assert(mid.contains(mid[i]));
                if head.contains(mid[i]) {
                    let k = choose|k: int| 0 <= k < head.len() && head[k] == mid[i];
                    assert(sorted[k] == mid[i]);
                }
            }
        }
    }
}

/// The sorted row is ascending and holds the shapes that the row held.
pub proof fn lemma_sorted(objects: Seq<Arc<Hittable>>, n: nat, axis: Axis)
    requires
        n <= objects.len(),
    ensures
        sorted_spec(objects, n, axis).len() == n,
        forall|i: int, j: int|
            0 <= i <= j < n ==> sort_key(sorted_spec(objects, n, axis)[i], axis) <= sort_key(
                sorted_spec(objects, n, axis)[j],
                axis,
            ),
        forall|y: Arc<Hittable>|
            sorted_spec(objects, n, axis).contains(y) <==> objects.subrange(0, n as int).contains(
                y,
            ),
    decreases n,
{
    lemma_sorted_len(objects, n, axis);
    let out = sorted_spec(objects, n, axis);
    let row = objects.subrange(0, n as int);
    if n > 0 {
        let before = sorted_spec(objects, (n - 1) as nat, axis);
        let shorter = objects.subrange(0, n - 1);
        lemma_sorted(objects, (n - 1) as nat, axis);
        lemma_insert_ascending(before, objects[n - 1], axis);
        lemma_insert_members(before, objects[n - 1], axis);
        assert forall|y: Arc<Hittable>| out.contains(y) <==> row.contains(y) by {
            if shorter.contains(y) {
                let i = choose|i: int| 0 <= i < shorter.len() && shorter[i] == y;
                assert(row[i] == y);
            }
            if row.contains(y) {
                let i = choose|i: int| 0 <= i < row.len() && row[i] == y;
                if i < n - 1 {
                    assert(shorter[i] == y);
                } else {
                    assert(y == objects[n - 1]);
                }
            }
            assert(row[n - 1] == objects[n - 1]);
        }
    } else {
        assert forall|y: Arc<Hittable>| out.contains(y) <==> row.contains(y) by {}
    }
}

/// The hierarchy over a row of shapes.
///
/// The box is the box around all of them. One shape becomes both children
/// and two shapes become the two children as they stand. More are sorted
/// along the longest axis of the box and cut at the middle, and each half
/// becomes a hierarchy of its own.
pub open spec fn build_spec(objects: Seq<Arc<Hittable>>, extent: spec_fn(Interval) -> Scalar) -> BVHNode
    decreases objects.len(),
{
    let bbox = bounds_of(objects, objects.len());
    if objects.len() <= 1 {
        BVHNode { left: objects[0], right: objects[0], bbox }
    } else if objects.len() == 2 {
        BVHNode { left: objects[0], right: objects[1], bbox }
    } else {
        let axis = AABB::longest_axis_spec(extent(bbox.x), extent(bbox.y), extent(bbox.z));
        let sorted = sorted_spec(objects, objects.len(), axis);
        let mid = objects.len() / 2;
        proof {
            lemma_sorted_len(objects, objects.len(), axis);
        }
        BVHNode {
            left: Arc::new(Hittable::Bvh(build_spec(sorted.subrange(0, mid as int), extent))),
            right: Arc::new(
                Hittable::Bvh(build_spec(sorted.subrange(mid as int, sorted.len() as int), extent)),
            ),
            bbox,
        }
    }
}

/// Sorts a row of shapes along an axis, keeping the order of shapes with
/// equal keys.
pub fn sort_by_axis(objects: &Vec<Arc<Hittable>>, axis: Axis) -> (sorted: Vec<Arc<Hittable>>)
    ensures
        sorted@ == sorted_spec(objects@, objects@.len(), axis),
{
    let mut sorted: Vec<Arc<Hittable>> = Vec::new();
    let mut k: usize = 0;
    while k < objects.len()
        invariant
            k <= objects.len(),
            sorted@ == sorted_spec(objects@, k as nat, axis),
        decreases objects.len() - k,
    {
        let x = objects[k].clone();
        let key: i64 = x.bounding_box().axis_interval(axis).min.total_key();
        let mut pos: usize = sorted.len();
        proof {
            assert(sorted@.subrange(0, pos as int) == sorted@);
            assert(sorted@.subrange(pos as int, sorted@.len() as int) == Seq::<
                Arc<Hittable>,
            >::empty());
            assert(insert_spec(sorted@, x, axis) + Seq::<Arc<Hittable>>::empty() == insert_spec(
                sorted@,
                x,
                axis,
            ));
        }
        while pos > 0 && sorted[pos - 1].bounding_box().axis_interval(axis).min.total_key() > key
            invariant
                pos <= sorted.len(),
                key == sort_key(x, axis),
                insert_spec(sorted@, x, axis) == insert_spec(
                    sorted@.subrange(0, pos as int),
                    x,
                    axis,
                ) + sorted@.subrange(pos as int, sorted@.len() as int),
            decreases pos,
        {
            proof {
                let head = sorted@.subrange(0, pos as int);
                assert(head.drop_last() == sorted@.subrange(0, pos - 1));
                assert(head.last() == sorted@[pos - 1]);
                assert(insert_spec(head.drop_last(), x, axis).push(head.last()) + sorted@.subrange(
                    pos as int,
                    sorted@.len() as int,
                ) == insert_spec(head.drop_last(), x, axis) + sorted@.subrange(
                    pos - 1,
                    sorted@.len() as int,
                ));
            }
            pos -= 1;
        }
        proof {
            let head = sorted@.subrange(0, pos as int);
            assert(insert_spec(head, x, axis) == head.push(x));
            assert(head.push(x) + sorted@.subrange(pos as int, sorted@.len() as int)
                == sorted@.insert(pos as int, x));
        }
        sorted.insert(pos, x);
        k += 1;
    }
    sorted
}

impl BVHNode {
    /// The node as a shape.
    pub open spec fn as_shape(self) -> Hittable {
        Hittable::Bvh(self)
    }

    /// The node over two shapes as they stand.
    pub fn pair(left: Arc<Hittable>, right: Arc<Hittable>) -> (node: BVHNode)
        ensures
            node.left == left,
            node.right == right,
            node.bbox == bounds_of(seq![left, right], 2),
    {
        let bbox = AABB::from_boxes(&AABB::empty(), left.bounding_box());
        let bbox = AABB::from_boxes(&bbox, right.bounding_box());
        proof {
            let row = seq![left, right];
            assert(bounds_of(row, 0) == AABB::empty_spec());
            assert(bounds_of(row, 1) == AABB::union_spec(
                bounds_of(row, 0),
                row[0].bounding_box_spec(),
            ));
        }
        BVHNode { left, right, bbox }
    }

    /// The hierarchy over the shapes of a list.
    pub fn new<E>(list: HittableList, extent: &E) -> (node: BVHNode) where
        E: Fn(&Interval) -> Scalar,

        requires
            list.objects@.len() >= 1,
            extent_callable(extent),
        ensures
            node.bbox == bounds_of(list.objects@, list.objects@.len()),
            list.objects@.len() == 1 ==> node.left == list.objects@[0] && node.right
                == list.objects@[0],
            list.objects@.len() == 2 ==> node.left == list.objects@[0] && node.right
                == list.objects@[1],
            extent_functional(extent) ==> node == build_spec(list.objects@, extent_fn(extent)),
    {
        BVHNode::from_slice(&list.objects, extent)
    }

    /// The hierarchy over a row of at least one shape. `extent` measures the
    /// length of a range.
    pub fn from_slice<E>(objects: &Vec<Arc<Hittable>>, extent: &E) -> (node: BVHNode) where
        E: Fn(&Interval) -> Scalar,

        requires
            objects@.len() >= 1,
            extent_callable(extent),
        ensures
            node.bbox == bounds_of(objects@, objects@.len()),
            objects@.len() == 1 ==> node.left == objects@[0] && node.right == objects@[0],
            objects@.len() == 2 ==> node.left == objects@[0] && node.right == objects@[1],
            extent_functional(extent) ==> node == build_spec(objects@, extent_fn(extent)),
        decreases objects@.len(),
    {
        let mut bbox = AABB::empty();
        let mut k: usize = 0;
        while k < objects.len()
            invariant
                k <= objects.len(),
                bbox == bounds_of(objects@, k as nat),
            decreases objects.len() - k,
        {
            bbox = AABB::from_boxes(&bbox, objects[k].bounding_box());
            k += 1;
        }
        if objects.len() == 1 {
            BVHNode { left: objects[0].clone(), right: objects[0].clone(), bbox }
        } else if objects.len() == 2 {
            BVHNode { left: objects[0].clone(), right: objects[1].clone(), bbox }
        } else {
            let axis = AABB::longest_axis(extent(&bbox.x), extent(&bbox.y), extent(&bbox.z));
            let mut left_objs = sort_by_axis(objects, axis);
            proof {
                lemma_sorted_len(objects@, objects@.len(), axis);
            }
            let right_objs = left_objs.split_off(objects.len() / 2);
            let left = Arc::new(Hittable::Bvh(BVHNode::from_slice(&left_objs, extent)));
            let right = Arc::new(Hittable::Bvh(BVHNode::from_slice(&right_objs, extent)));
            BVHNode { left, right, bbox }
        }
    }

    pub fn bounding_box(&self) -> (b: &AABB)
        ensures
            *b == self.bbox,
    {
        &self.bbox
    }

    /// Tests the ray against the node: nothing if the ray misses the box,
    /// else the nearer of the children's hits, the right child being asked
    /// only up to the left child's hit.
    pub fn hit<B, F, G, C>(&self, r: &Ray, ray_t: Interval, probes: &Probes<B, F, G, C>) -> (rec:
        Option<HitRecord>) where
        B: Fn(&AABB, &Ray) -> (Slab, Slab, Slab),
        F: Fn(&Sphere, &Ray) -> SphereRoots,
        G: Fn(&Sphere, &Ray, Scalar) -> SurfacePoint,
        C: Fn(&Quad, &Ray) -> PlaneCrossing,

        requires
            probes.callable(),
        ensures
            probes.functional() ==> rec == self.as_shape().hit_spec(
                probes.leaf_spec(),
                probes.slab_spec(),
                *r,
                ray_t,
            ),
            probes.functional() ==> found_rightly(
                &self.as_shape(),
                probes.leaf_spec(),
                probes.slab_spec(),
                *r,
                ray_t,
                rec,
            ),
            rec matches Some(x) ==> self.as_shape().uses_material(x.mat),
        decreases self,
    {
        proof {
            lemma_found_rightly(
                &self.as_shape(),
                probes.leaf_spec(),
                probes.slab_spec(),
                *r,
                ray_t,
            );
        }
        let (sx, sy, sz) = (probes.slabs)(&self.bbox, r);
        if !AABB::hit(sx, sy, sz, ray_t) {
            return None;
        }
        let hit_left = self.left.hit(r, ray_t, probes);
        let right_endpoint = match &hit_left {
            Some(rec) => rec.t,
            None => ray_t.max,
        };
        let hit_right = self.right.hit(r, Interval::new(ray_t.min, right_endpoint), probes);
        match (hit_left, hit_right) {
            (Some(lhs), Some(rhs)) => Some(
                if rhs.t.lt(&lhs.t) {
                    rhs
                } else {
                    lhs
                },
            ),
            (Some(lhs), None) => Some(lhs),
            (None, Some(rhs)) => Some(rhs),
            (None, None) => None,
        }
    }
}

} // verus!
