//! The boxes of groups: every box of a list or of a hierarchy holds the
//! boxes of the shapes below it, and with them every point at which these
//! are hit.
use vstd::prelude::*;
use std::sync::Arc;
use crate::aabb::{AABB, Slab};
use crate::bvh::{build_spec, lemma_sorted, sorted_spec};
use crate::hittable::{
    bounds_of, closest_so_far, leaf_set_of, scan_spec, surface_leaf, HitRecord, Hittable,
};
use crate::quad::{PlaneCrossing, Quad};
use crate::sphere::{Sphere, SphereRoots, SurfacePoint};
use crate::nearest::{boxes_sound, is_nearest, lemma_hit_is_nearest, probe_regular};
use crate::interval::Interval;
use crate::ray::Ray;
use crate::scalar::Scalar;
use crate::vec::Point3;

verus! {

/// Both bounds of the range are numbers.
pub open spec fn proper_range(iv: Interval) -> bool {
    !iv.min.nan() && !iv.max.nan()
}

/// All bounds of the box are numbers.
pub open spec fn proper(b: AABB) -> bool {
    proper_range(b.x) && proper_range(b.y) && proper_range(b.z)
}

/// The range `outer` reaches at least as far as `inner` on both sides.
pub open spec fn range_covers(outer: Interval, inner: Interval) -> bool {
    outer.min.le_spec(inner.min) && inner.max.le_spec(outer.max)
}

/// The box `outer` reaches at least as far as `inner` along every axis.
pub open spec fn covers(outer: AABB, inner: AABB) -> bool {
    range_covers(outer.x, inner.x) && range_covers(outer.y, inner.y) && range_covers(
        outer.z,
        inner.z,
    )
}

/// Every box in the shape is made of numbers and covers the boxes of the
/// shapes directly below it.
pub open spec fn well_bounded(h: &Hittable) -> bool
    decreases h,
{
    match *h {
        Hittable::Sphere(s) => proper(s.bbox),
        Hittable::Quad(q) => proper(q.bbox),
        Hittable::List(l) => proper(l.bbox) && forall|i: int|
            0 <= i < l.objects@.len() ==> covers(
                l.bbox,
                (#[trigger] l.objects@[i]).bounding_box_spec(),
            ) && well_bounded(&*l.objects@[i]),
        Hittable::Bvh(n) => {
            &&& proper(n.bbox)
            &&& covers(n.bbox, n.left.bounding_box_spec())
            &&& covers(n.bbox, n.right.bounding_box_spec())
            &&& well_bounded(&*n.left)
            &&& well_bounded(&*n.right)
        },
    }
}

/// The origin, where a lemma needs some point.
pub open spec fn origin() -> Point3 {
    crate::vec::Vec3(Scalar::zero_spec(), Scalar::zero_spec(), Scalar::zero_spec())
}

/// A box that covers another holds every point that the other holds, and
/// covering carries over from box to box.
pub proof fn lemma_covers(a: AABB, b: AABB, c: AABB, p: Point3)
    ensures
        covers(a, b) && b.contains_spec(p) ==> a.contains_spec(p),
        covers(a, b) && covers(b, c) ==> covers(a, c),
        proper(a) ==> covers(a, a) && covers(a, AABB::empty_spec()),
{
}

/// The box around two boxes covers both, and is the least such box: what
/// covers both covers it.
pub proof fn lemma_union_covers(a: AABB, b: AABB, c: AABB)
    requires
        proper(a),
        proper(b),
    ensures
        proper(AABB::union_spec(a, b)),
        covers(AABB::union_spec(a, b), a),
        covers(AABB::union_spec(a, b), b),
        covers(c, a) && covers(c, b) ==> covers(c, AABB::union_spec(a, b)),
{
}

/// The box around a row of shapes covers the box of each, and is the least
/// such box.
pub proof fn lemma_bounds_of_covers(objects: Seq<Arc<Hittable>>, n: nat, c: AABB)
    requires
        n <= objects.len(),
        forall|i: int| 0 <= i < n ==> proper((#[trigger] objects[i]).bounding_box_spec()),
    ensures
        proper(bounds_of(objects, n)),
        forall|i: int|
            0 <= i < n ==> covers(bounds_of(objects, n), (#[trigger] objects[i]).bounding_box_spec()),
        proper(c) && (forall|i: int|
            0 <= i < n ==> covers(c, (#[trigger] objects[i]).bounding_box_spec())) ==> covers(
            c,
            bounds_of(objects, n),
        ),
    decreases n,
{
    if n > 0 {
        let before = bounds_of(objects, (n - 1) as nat);
        let last = objects[n - 1].bounding_box_spec();
        lemma_bounds_of_covers(objects, (n - 1) as nat, c);
        lemma_union_covers(before, last, c);
        assert forall|i: int| 0 <= i < n implies covers(
            bounds_of(objects, n),
            (#[trigger] objects[i]).bounding_box_spec(),
        ) by {
            if i < n - 1 {
                lemma_covers(
                    bounds_of(objects, n),
                    before,
                    objects[i].bounding_box_spec(),
                    origin(),
                );
            }
        }
    }
}

/// The box of a shape is made of numbers if the shape is well bounded.
pub proof fn lemma_well_bounded_proper(h: &Hittable)
    requires
        well_bounded(h),
    ensures
        proper(h.bounding_box_spec()),
{
}

/// A hierarchy built over well-bounded shapes is well bounded.
pub proof fn lemma_build_well_bounded(
    objects: Seq<Arc<Hittable>>,
    extent: spec_fn(Interval) -> Scalar,
)
    requires
        objects.len() >= 1,
        forall|i: int| 0 <= i < objects.len() ==> well_bounded(&*(#[trigger] objects[i])),
    ensures
        well_bounded(&Hittable::Bvh(build_spec(objects, extent))),
    decreases objects.len(),
{
    let node = build_spec(objects, extent);
    assert forall|i: int| 0 <= i < objects.len() implies proper(
        (#[trigger] objects[i]).bounding_box_spec(),
    ) by {
        lemma_well_bounded_proper(&*objects[i]);
    }
    lemma_bounds_of_covers(objects, objects.len(), node.bbox);
    if objects.len() >= 3 {
        let bbox = node.bbox;
        let axis = AABB::longest_axis_spec(extent(bbox.x), extent(bbox.y), extent(bbox.z));
        let sorted = sorted_spec(objects, objects.len(), axis);
        let mid = (objects.len() / 2) as int;
        lemma_sorted(objects, objects.len(), axis);
        assert(objects.subrange(0, objects.len() as int) == objects);
        let lo = sorted.subrange(0, mid);
        let hi = sorted.subrange(mid, sorted.len() as int);
        assert forall|i: int| 0 <= i < sorted.len() implies well_bounded(
            &*(#[trigger] sorted[i]),
        ) && covers(bbox, sorted[i].bounding_box_spec()) by {
            assert(sorted.contains(sorted[i]));
            assert(objects.contains(sorted[i]));
            let j = choose|j: int| 0 <= j < objects.len() && objects[j] == sorted[i];
            assert(well_bounded(&*objects[j]));
        }
        assert forall|i: int| 0 <= i < lo.len() implies well_bounded(&*(#[trigger] lo[i]))
            && covers(bbox, lo[i].bounding_box_spec()) && proper(lo[i].bounding_box_spec()) by {
            assert(lo[i] == sorted[i]);
            lemma_well_bounded_proper(&*lo[i]);
        }
        assert forall|i: int| 0 <= i < hi.len() implies well_bounded(&*(#[trigger] hi[i]))
            && covers(bbox, hi[i].bounding_box_spec()) && proper(hi[i].bounding_box_spec()) by {
            assert(hi[i] == sorted[i + mid]);
            lemma_well_bounded_proper(&*hi[i]);
        }
        lemma_build_well_bounded(lo, extent);
        lemma_build_well_bounded(hi, extent);
        lemma_bounds_of_covers(lo, lo.len(), bbox);
        lemma_bounds_of_covers(hi, hi.len(), bbox);
    }
}

/// A list whose box is the box around its well-bounded members is well
/// bounded.
pub proof fn lemma_list_well_bounded(h: &Hittable)
    requires
        h matches Hittable::List(l) && l.bbox == bounds_of(l.objects@, l.objects@.len())
            && forall|i: int|
            0 <= i < l.objects@.len() ==> well_bounded(&*(#[trigger] l.objects@[i])),
    ensures
        well_bounded(h),
{
    if let Hittable::List(l) = *h {
        assert forall|i: int| 0 <= i < l.objects@.len() implies proper(
            (#[trigger] l.objects@[i]).bounding_box_spec(),
        ) by {
            lemma_well_bounded_proper(&*l.objects@[i]);
        }
        lemma_bounds_of_covers(l.objects@, l.objects@.len(), l.bbox);
    }
}

/// The box of a well-bounded shape covers the box of every surface in it.
pub proof fn lemma_covers_leaves(h: &Hittable, s: Hittable)
    requires
        well_bounded(h),
        h.leaf_set().contains(s),
    ensures
        covers(h.bounding_box_spec(), s.bounding_box_spec()),
    decreases h,
{
    let p = origin();
    match *h {
        Hittable::Sphere(_) => {},
        Hittable::Quad(_) => {},
        Hittable::List(l) => {
            crate::nearest::lemma_leaf_set_of(l.objects@, l.objects@.len());
            assert(crate::hittable::leaf_set_of(l.objects@, l.objects@.len()).contains(s));
            let i = choose|i: int|
                0 <= i < l.objects@.len() && (#[trigger] l.objects@[i]).leaf_set().contains(s);
            assert(well_bounded(&*l.objects@[i]));
            lemma_covers_leaves(&*l.objects@[i], s);
            lemma_covers(l.bbox, l.objects@[i].bounding_box_spec(), s.bounding_box_spec(), p);
        },
        Hittable::Bvh(n) => {
            if n.left.leaf_set().contains(s) {
                lemma_covers_leaves(&*n.left, s);
                lemma_covers(n.bbox, n.left.bounding_box_spec(), s.bounding_box_spec(), p);
            } else {
                lemma_covers_leaves(&*n.right, s);
                lemma_covers(n.bbox, n.right.bounding_box_spec(), s.bounding_box_spec(), p);
            }
        },
    }
}

/// What a traversal finds is what one of the surfaces of the shape answers
/// for some range.
pub proof fn lemma_hit_comes_from_leaf(
    h: &Hittable,
    leaf: spec_fn(Hittable, Ray, Interval) -> Option<HitRecord>,
    slabs: spec_fn(AABB, Ray) -> (Slab, Slab, Slab),
    r: Ray,
    iv: Interval,
)
    ensures
        h.hit_spec(leaf, slabs, r, iv) matches Some(rec) ==> exists|s: Hittable, part: Interval|
            h.leaf_set().contains(s) && #[trigger] leaf(s, r, part) == Some(rec),
    decreases h,
{
    if let Some(rec) = h.hit_spec(leaf, slabs, r, iv) {
        match *h {
            Hittable::Sphere(_) => {
                assert(h.leaf_set().contains(*h) && leaf(*h, r, iv) == Some(rec));
            },
            Hittable::Quad(_) => {
                assert(h.leaf_set().contains(*h) && leaf(*h, r, iv) == Some(rec));
            },
            Hittable::List(l) => {
                lemma_scan_comes_from_leaf(l.objects@, l.objects@.len(), leaf, slabs, r, iv);
                crate::nearest::lemma_leaf_set_of(l.objects@, l.objects@.len());
                let (i, s, part) = choose|i: int, s: Hittable, part: Interval|
                    0 <= i < l.objects@.len() && (#[trigger] l.objects@[i]).leaf_set().contains(s)
                        && #[trigger] leaf(s, r, part) == Some(rec);
                assert(l.objects@[i].leaf_set().contains(s));
                assert(crate::hittable::leaf_set_of(l.objects@, l.objects@.len()).contains(s));
                assert(h.leaf_set().contains(s) && leaf(s, r, part) == Some(rec));
            },
            Hittable::Bvh(n) => {
                let hit_left = n.left.hit_spec(leaf, slabs, r, iv);
                let tight = iv.with_max(closest_so_far(hit_left, iv));
                let hit_right = n.right.hit_spec(leaf, slabs, r, tight);
                lemma_hit_comes_from_leaf(&*n.left, leaf, slabs, r, iv);
                lemma_hit_comes_from_leaf(&*n.right, leaf, slabs, r, tight);
                if hit_left == Some(rec) {
                    let (s, part) = choose|s: Hittable, part: Interval|
                        n.left.leaf_set().contains(s) && #[trigger] leaf(s, r, part) == Some(rec);
                    assert(h.leaf_set().contains(s) && leaf(s, r, part) == Some(rec));
                } else {
                    assert(hit_right == Some(rec));
                    let (s, part) = choose|s: Hittable, part: Interval|
                        n.right.leaf_set().contains(s) && #[trigger] leaf(s, r, part) == Some(rec);
                    assert(h.leaf_set().contains(s) && leaf(s, r, part) == Some(rec));
                }
            },
        }
    }
}

/// What a scan finds is what one of the surfaces of the row answers for some
/// range.
pub proof fn lemma_scan_comes_from_leaf(
    objects: Seq<Arc<Hittable>>,
    n: nat,
    leaf: spec_fn(Hittable, Ray, Interval) -> Option<HitRecord>,
    slabs: spec_fn(AABB, Ray) -> (Slab, Slab, Slab),
    r: Ray,
    iv: Interval,
)
    requires
        n <= objects.len(),
    ensures
        scan_spec(objects, n, leaf, slabs, r, iv) matches Some(rec) ==> exists|
            i: int,
            s: Hittable,
            part: Interval,
        |
            0 <= i < n && (#[trigger] objects[i]).leaf_set().contains(s) && #[trigger] leaf(
                s,
                r,
                part,
            ) == Some(rec),
    decreases objects, n,
{
    if n > 0 {
        let found = scan_spec(objects, (n - 1) as nat, leaf, slabs, r, iv);
        let tight = iv.with_max(closest_so_far(found, iv));
        lemma_scan_comes_from_leaf(objects, (n - 1) as nat, leaf, slabs, r, iv);
        lemma_hit_comes_from_leaf(&*objects[n - 1], leaf, slabs, r, tight);
        if let Some(rec) = scan_spec(objects, n, leaf, slabs, r, iv) {
            if objects[n - 1].hit_spec(leaf, slabs, r, tight) == Some(rec) {
                let (s, at) = choose|s: Hittable, at: Interval|
                    objects[n - 1].leaf_set().contains(s) && #[trigger] leaf(s, r, at) == Some(
                        rec,
                    );
                assert(objects[n - 1].leaf_set().contains(s) && leaf(s, r, at) == Some(rec));
            } else {
                assert(found == Some(rec));
                let (i, s, at) = choose|i: int, s: Hittable, at: Interval|
                    0 <= i < n - 1 && (#[trigger] objects[i]).leaf_set().contains(s)
                        && #[trigger] leaf(s, r, at) == Some(rec);
                assert(objects[i].leaf_set().contains(s) && leaf(s, r, at) == Some(rec));
            }
        }
    }
}

/// The box of every surface of the shape holds the points at which the
/// surface is hit.
pub open spec fn surfaces_hold_hits(
    h: &Hittable,
    leaf: spec_fn(Hittable, Ray, Interval) -> Option<HitRecord>,
    r: Ray,
) -> bool {
    forall|s: Hittable, part: Interval|
        h.leaf_set().contains(s) ==> ((#[trigger] leaf(s, r, part)) matches Some(rec)
            ==> s.bounding_box_spec().contains_spec(rec.p))
}

/// The box of a well-bounded shape holds every point at which the shape is
/// hit, provided that the box of each surface holds the points at which the
/// surface is hit.
pub proof fn lemma_box_holds_hits(
    h: &Hittable,
    leaf: spec_fn(Hittable, Ray, Interval) -> Option<HitRecord>,
    slabs: spec_fn(AABB, Ray) -> (Slab, Slab, Slab),
    r: Ray,
    iv: Interval,
)
    requires
        well_bounded(h),
        surfaces_hold_hits(h, leaf, r),
    ensures
        h.hit_spec(leaf, slabs, r, iv) matches Some(rec) ==> h.bounding_box_spec().contains_spec(
            rec.p,
        ),
{
    lemma_hit_comes_from_leaf(h, leaf, slabs, r, iv);
    if let Some(rec) = h.hit_spec(leaf, slabs, r, iv) {
        let (s, part) = choose|s: Hittable, part: Interval|
            h.leaf_set().contains(s) && #[trigger] leaf(s, r, part) == Some(rec);
        lemma_covers_leaves(h, s);
        lemma_covers(h.bounding_box_spec(), s.bounding_box_spec(), s.bounding_box_spec(), rec.p);
    }
}

/// What was found in a shape was found rightly: it is what one of the
/// surfaces of the shape answers, for some range; it is a nearest hit among
/// the surfaces, if the leaf probe is regular and the boxes are sound; and
/// it lies in the box of the shape, if the shape is well bounded and the box
/// of every surface of the shape holds the points at which the surface is
/// hit.
pub open spec fn found_rightly(
    h: &Hittable,
    leaf: spec_fn(Hittable, Ray, Interval) -> Option<HitRecord>,
    slabs: spec_fn(AABB, Ray) -> (Slab, Slab, Slab),
    r: Ray,
    iv: Interval,
    found: Option<HitRecord>,
) -> bool {
    &&& found matches Some(rec) ==> exists|s: Hittable, part: Interval|
        h.leaf_set().contains(s) && #[trigger] leaf(s, r, part) == Some(rec)
    &&& probe_regular(leaf, r) && boxes_sound(h, leaf, slabs, r) ==> is_nearest(
        h.leaf_set(),
        leaf,
        r,
        iv,
        found,
    )
    &&& well_bounded(h) && surfaces_hold_hits(h, leaf, r) ==> (found matches Some(rec)
        ==> h.bounding_box_spec().contains_spec(rec.p))
}

/// What a traversal finds, it finds rightly.
pub proof fn lemma_found_rightly(
    h: &Hittable,
    leaf: spec_fn(Hittable, Ray, Interval) -> Option<HitRecord>,
    slabs: spec_fn(AABB, Ray) -> (Slab, Slab, Slab),
    r: Ray,
    iv: Interval,
)
    ensures
        found_rightly(h, leaf, slabs, r, iv, h.hit_spec(leaf, slabs, r, iv)),
{
    lemma_hit_comes_from_leaf(h, leaf, slabs, r, iv);
    if probe_regular(leaf, r) && boxes_sound(h, leaf, slabs, r) {
        lemma_hit_is_nearest(h, leaf, slabs, r, iv);
    }
    if well_bounded(h) && surfaces_hold_hits(h, leaf, r) {
        lemma_box_holds_hits(h, leaf, slabs, r, iv);
    }
}

/// A shape uses the material of each of its surfaces.
pub proof fn lemma_leaf_material(h: &Hittable, s: Hittable)
    requires
        h.leaf_set().contains(s),
    ensures
        s matches Hittable::Sphere(x) ==> h.uses_material(x.mat),
        s matches Hittable::Quad(q) ==> h.uses_material(q.mat),
    decreases h,
{
    match *h {
        Hittable::Sphere(_) => {},
        Hittable::Quad(_) => {},
        Hittable::List(l) => {
            crate::nearest::lemma_leaf_set_of(l.objects@, l.objects@.len());
            assert(leaf_set_of(l.objects@, l.objects@.len()).contains(s));
            let i = choose|i: int|
                0 <= i < l.objects@.len() && (#[trigger] l.objects@[i]).leaf_set().contains(s);
            lemma_leaf_material(&*l.objects@[i], s);
        },
        Hittable::Bvh(n) => {
            if n.left.leaf_set().contains(s) {
                lemma_leaf_material(&*n.left, s);
            } else {
                lemma_leaf_material(&*n.right, s);
            }
        },
    }
}

/// What is hit in a shape is made of a material that the shape uses.
pub proof fn lemma_hit_material(
    h: &Hittable,
    roots: spec_fn(Sphere, Ray) -> SphereRoots,
    surface: spec_fn(Sphere, Ray, Scalar) -> SurfacePoint,
    crossing: spec_fn(Quad, Ray) -> PlaneCrossing,
    slabs: spec_fn(AABB, Ray) -> (Slab, Slab, Slab),
    r: Ray,
    iv: Interval,
)
    ensures
        h.hit_spec(surface_leaf(roots, surface, crossing), slabs, r, iv) matches Some(rec)
            ==> h.uses_material(rec.mat),
{
    let leaf = surface_leaf(roots, surface, crossing);
    lemma_hit_comes_from_leaf(h, leaf, slabs, r, iv);
    if let Some(rec) = h.hit_spec(leaf, slabs, r, iv) {
        let (s, part) = choose|s: Hittable, part: Interval|
            h.leaf_set().contains(s) && #[trigger] leaf(s, r, part) == Some(rec);
        lemma_leaf_material(h, s);
    }
}

} // verus!
