//! What a traversal finds: the nearest hit among the surfaces of a shape.
use vstd::prelude::*;
use std::sync::Arc;
use crate::aabb::{AABB, Slab};
use crate::bvh::{build_spec, lemma_sorted, sorted_spec};
use crate::hittable::{
    closest_so_far, leaf_set_of, nearer_spec, scan_spec, surface_hit_spec, surface_leaf,
    HitRecord, Hittable,
};
use crate::interval::Interval;
use crate::quad::{lemma_plane_hit_restricts, PlaneCrossing, Quad};
use crate::ray::Ray;
use crate::scalar::Scalar;
use crate::sphere::{lemma_nearest_root_restricts, Sphere, SphereRoots, SurfacePoint};

verus! {

/// What the traversal relies on in a leaf probe, for one ray: a hit lies
/// inside the range it was asked for; and lowering the upper bound of the
/// range never changes a hit into another one, keeps a hit that lies below
/// the new bound, and finds none where none was found.
pub open spec fn probe_regular(
    leaf: spec_fn(Hittable, Ray, Interval) -> Option<HitRecord>,
    r: Ray,
) -> bool {
    &&& forall|s: Hittable, iv: Interval|
        (#[trigger] leaf(s, r, iv)) matches Some(rec) ==> iv.min.le_spec(rec.t) && rec.t.le_spec(
            iv.max,
        )
    &&& forall|s: Hittable, iv: Interval, max: Scalar|
        max.le_spec(iv.max) ==> {
            let whole = leaf(s, r, iv);
            let part = #[trigger] leaf(s, r, iv.with_max(max));
            &&& part is None || part == whole
            &&& (whole matches Some(rec) && rec.t.lt_spec(max)) ==> part == whole
        }
}

/// `res` is a nearest hit among the surfaces `leaves`: none if the ray hits
/// none of them within `iv`, else the hit of one of them, and no other hit
/// is nearer.
pub open spec fn is_nearest(
    leaves: Set<Hittable>,
    leaf: spec_fn(Hittable, Ray, Interval) -> Option<HitRecord>,
    r: Ray,
    iv: Interval,
    res: Option<HitRecord>,
) -> bool {
    match res {
        None => forall|s: Hittable| leaves.contains(s) ==> (#[trigger] leaf(s, r, iv)) is None,
        Some(rec) => {
            &&& exists|s: Hittable| leaves.contains(s) && #[trigger] leaf(s, r, iv) == Some(rec)
            &&& forall|s: Hittable|
                leaves.contains(s) ==> ((#[trigger] leaf(s, r, iv)) matches Some(o)
                    ==> rec.t.le_spec(o.t))
        },
    }
}

/// The slab test on the box `b`.
pub open spec fn box_hit(
    slabs: spec_fn(AABB, Ray) -> (Slab, Slab, Slab),
    b: AABB,
    r: Ray,
    iv: Interval,
) -> bool {
    AABB::hit_spec(slabs(b, r).0, slabs(b, r).1, slabs(b, r).2, iv)
}

/// Every box of the hierarchy bounds what is below it, as far as the probes
/// can tell: a ray that misses a node's box within a range hits none of the
/// node's surfaces within that range.
pub open spec fn boxes_sound(
    h: &Hittable,
    leaf: spec_fn(Hittable, Ray, Interval) -> Option<HitRecord>,
    slabs: spec_fn(AABB, Ray) -> (Slab, Slab, Slab),
    r: Ray,
) -> bool
    decreases h,
{
    match *h {
        Hittable::Sphere(_) => true,
        Hittable::Quad(_) => true,
        Hittable::List(l) => forall|i: int|
            0 <= i < l.objects@.len() ==> boxes_sound(
                &*(#[trigger] l.objects@[i]),
                leaf,
                slabs,
                r,
            ),
        Hittable::Bvh(n) => {
            &&& forall|iv: Interval, s: Hittable|
                h.leaf_set().contains(s) && !box_hit(slabs, n.bbox, r, iv) ==> (#[trigger] leaf(
                    s,
                    r,
                    iv,
                )) is None
            &&& boxes_sound(&*n.left, leaf, slabs, r)
            &&& boxes_sound(&*n.right, leaf, slabs, r)
        },
    }
}

/// Hits at the same distance are the same hit.
pub open spec fn ties_agree(
    leaves: Set<Hittable>,
    leaf: spec_fn(Hittable, Ray, Interval) -> Option<HitRecord>,
    r: Ray,
    iv: Interval,
) -> bool {
    forall|s1: Hittable, s2: Hittable|
        {
            let a = #[trigger] leaf(s1, r, iv);
            let b = #[trigger] leaf(s2, r, iv);
            leaves.contains(s1) && leaves.contains(s2) && a is Some && b is Some && a->0.t.eq_spec(
                b->0.t,
            ) ==> a == b
        }
}

/// What was found among `a`, and what was then found among `b` up to that
/// hit's distance, give a nearest hit among both, whether the second result
/// wins only when it is strictly nearer or whenever there is one.
pub proof fn lemma_combine(
    a: Set<Hittable>,
    b: Set<Hittable>,
    leaf: spec_fn(Hittable, Ray, Interval) -> Option<HitRecord>,
    r: Ray,
    iv: Interval,
    res_a: Option<HitRecord>,
    res_b: Option<HitRecord>,
)
    requires
        probe_regular(leaf, r),
        is_nearest(a, leaf, r, iv, res_a),
        is_nearest(b, leaf, r, iv.with_max(closest_so_far(res_a, iv)), res_b),
    ensures
        is_nearest(a.union(b), leaf, r, iv, nearer_spec(res_a, res_b)),
        is_nearest(
            a.union(b),
            leaf,
            r,
            iv,
            match res_b {
                Some(x) => Some(x),
                None => res_a,
            },
        ),
{
    let max = closest_so_far(res_a, iv);
    let part = iv.with_max(max);
    match res_a {
        None => {
            assert(part == iv);
        },
        Some(ra) => {
            let sa = choose|s: Hittable| a.contains(s) && #[trigger] leaf(s, r, iv) == Some(ra);
            assert(leaf(sa, r, iv) == Some(ra));
            assert(ra.t.le_spec(iv.max));
            assert(!ra.t.nan());
            // what a surface of `b` answers over the whole range, against
            // what it answers up to the first hit
            assert forall|s: Hittable| b.contains(s) implies (leaf(s, r, part) is None || leaf(
                s,
                r,
                part,
            ) == leaf(s, r, iv)) && ((#[trigger] leaf(s, r, iv)) is Some && leaf(
                s,
                r,
                part,
            ) is None ==> ra.t.le_spec(leaf(s, r, iv)->0.t)) by {
                if let Some(o) = leaf(s, r, iv) {
                    assert(iv.min.le_spec(o.t));
                }
            }
            match res_b {
                None => {
                    assert forall|s: Hittable| a.union(b).contains(s) implies ((#[trigger] leaf(
                        s,
                        r,
                        iv,
                    )) matches Some(o) ==> ra.t.le_spec(o.t)) by {
                        if b.contains(s) {
                            assert(leaf(s, r, part) is None);
                        }
                    }
                    assert(a.union(b).contains(sa));
                },
                Some(rb) => {
                    let sb = choose|s: Hittable|
                        b.contains(s) && #[trigger] leaf(s, r, part) == Some(rb);
                    assert(leaf(sb, r, part) == Some(rb));
                    assert(leaf(sb, r, iv) == Some(rb));
                    assert(rb.t.le_spec(ra.t));
                    assert(a.union(b).contains(sa));
                    assert(a.union(b).contains(sb));
                    assert forall|s: Hittable| a.union(b).contains(s) implies ((#[trigger] leaf(
                        s,
                        r,
                        iv,
                    )) matches Some(o) ==> rb.t.le_spec(o.t)) by {
                        if let Some(o) = leaf(s, r, iv) {
                            if a.contains(s) {
                                assert(ra.t.le_spec(o.t));
                            } else {
                                assert(b.contains(s));
                                if leaf(s, r, part) is None {
                                    assert(ra.t.le_spec(o.t));
                                } else {
                                    assert(leaf(s, r, part) == Some(o));
                                    assert(rb.t.le_spec(o.t));
                                }
                            }
                        }
                    }
                    if !rb.t.lt_spec(ra.t) {
                        assert(ra.t.le_spec(rb.t));
                        assert forall|s: Hittable| a.union(b).contains(s) implies ((
                        #[trigger] leaf(s, r, iv)) matches Some(o) ==> ra.t.le_spec(o.t)) by {
                            if let Some(o) = leaf(s, r, iv) {
                                assert(rb.t.le_spec(o.t));
                            }
                        }
                    }
                },
            }
        },
    }
}

/// A traversal finds a nearest hit among the surfaces of the shape, whatever
/// the shape: a surface, a list, a hierarchy, or any nesting of these.
pub proof fn lemma_hit_is_nearest(
    h: &Hittable,
    leaf: spec_fn(Hittable, Ray, Interval) -> Option<HitRecord>,
    slabs: spec_fn(AABB, Ray) -> (Slab, Slab, Slab),
    r: Ray,
    iv: Interval,
)
    requires
        probe_regular(leaf, r),
        boxes_sound(h, leaf, slabs, r),
    ensures
        is_nearest(h.leaf_set(), leaf, r, iv, h.hit_spec(leaf, slabs, r, iv)),
    decreases h,
{
    match h {
        Hittable::Sphere(_) => {
            assert(h.leaf_set().contains(*h));
            assert(leaf(*h, r, iv) is Some ==> leaf(*h, r, iv)->0.t.le_spec(iv.max));
        },
        Hittable::Quad(_) => {
            assert(h.leaf_set().contains(*h));
            assert(leaf(*h, r, iv) is Some ==> leaf(*h, r, iv)->0.t.le_spec(iv.max));
        },
        Hittable::List(l) => {
            lemma_scan_is_nearest(l.objects@, l.objects@.len(), leaf, slabs, r, iv);
        },
        Hittable::Bvh(n) => {
            if box_hit(slabs, n.bbox, r, iv) {
                let hit_left = n.left.hit_spec(leaf, slabs, r, iv);
                let part = iv.with_max(closest_so_far(hit_left, iv));
                let hit_right = n.right.hit_spec(leaf, slabs, r, part);
                lemma_hit_is_nearest(&*n.left, leaf, slabs, r, iv);
                lemma_hit_is_nearest(&*n.right, leaf, slabs, r, part);
                lemma_combine(
                    n.left.leaf_set(),
                    n.right.leaf_set(),
                    leaf,
                    r,
                    iv,
                    hit_left,
                    hit_right,
                );
            }
        },
    }
}

/// A scan of the first `n` shapes of a row finds a nearest hit among their
/// surfaces.
pub proof fn lemma_scan_is_nearest(
    objects: Seq<Arc<Hittable>>,
    n: nat,
    leaf: spec_fn(Hittable, Ray, Interval) -> Option<HitRecord>,
    slabs: spec_fn(AABB, Ray) -> (Slab, Slab, Slab),
    r: Ray,
    iv: Interval,
)
    requires
        n <= objects.len(),
        probe_regular(leaf, r),
        forall|i: int|
            0 <= i < objects.len() ==> boxes_sound(&*(#[trigger] objects[i]), leaf, slabs, r),
    ensures
        is_nearest(leaf_set_of(objects, n), leaf, r, iv, scan_spec(objects, n, leaf, slabs, r, iv)),
    decreases objects, n,
{
    if n > 0 {
        let found = scan_spec(objects, (n - 1) as nat, leaf, slabs, r, iv);
        let part = iv.with_max(closest_so_far(found, iv));
        let next = objects[n - 1].hit_spec(leaf, slabs, r, part);
        lemma_scan_is_nearest(objects, (n - 1) as nat, leaf, slabs, r, iv);
        lemma_hit_is_nearest(&*objects[n - 1], leaf, slabs, r, part);
        lemma_combine(
            leaf_set_of(objects, (n - 1) as nat),
            objects[n - 1].leaf_set(),
            leaf,
            r,
            iv,
            found,
            next,
        );
    }
}

/// Two nearest hits among the same surfaces are both none or lie at the same
/// distance; and they are the same hit where hits at the same distance are.
pub proof fn lemma_nearest_agree(
    leaves: Set<Hittable>,
    leaf: spec_fn(Hittable, Ray, Interval) -> Option<HitRecord>,
    r: Ray,
    iv: Interval,
    x: Option<HitRecord>,
    y: Option<HitRecord>,
)
    requires
        is_nearest(leaves, leaf, r, iv, x),
        is_nearest(leaves, leaf, r, iv, y),
    ensures
        x is None <==> y is None,
        x is Some && y is Some ==> x->0.t.eq_spec(y->0.t),
        ties_agree(leaves, leaf, r, iv) ==> x == y,
{
    match (x, y) {
        (Some(a), Some(b)) => {
            let sa = choose|s: Hittable| leaves.contains(s) && #[trigger] leaf(s, r, iv) == Some(a);
            let sb = choose|s: Hittable| leaves.contains(s) && #[trigger] leaf(s, r, iv) == Some(b);
            assert(leaf(sa, r, iv) == Some(a));
            assert(leaf(sb, r, iv) == Some(b));
            assert(a.t.le_spec(b.t));
            assert(b.t.le_spec(a.t));
        },
        (Some(a), None) => {
            let sa = choose|s: Hittable| leaves.contains(s) && #[trigger] leaf(s, r, iv) == Some(a);
            assert(leaf(sa, r, iv) == Some(a));
        },
        (None, Some(b)) => {
            let sb = choose|s: Hittable| leaves.contains(s) && #[trigger] leaf(s, r, iv) == Some(b);
            assert(leaf(sb, r, iv) == Some(b));
        },
        (None, None) => {},
    }
}

/// The surfaces of the first `n` shapes of a row are the surfaces of each of
/// them.
pub proof fn lemma_leaf_set_of(objects: Seq<Arc<Hittable>>, n: nat)
    requires
        n <= objects.len(),
    ensures
        forall|s: Hittable|
            leaf_set_of(objects, n).contains(s) <==> exists|i: int|
                0 <= i < n && (#[trigger] objects[i]).leaf_set().contains(s),
    decreases n,
{
    if n > 0 {
        lemma_leaf_set_of(objects, (n - 1) as nat);
        assert forall|s: Hittable|
            leaf_set_of(objects, n).contains(s) <==> exists|i: int|
                0 <= i < n && (#[trigger] objects[i]).leaf_set().contains(s) by {
            if leaf_set_of(objects, (n - 1) as nat).contains(s) {
                let i = choose|i: int|
                    0 <= i < n - 1 && (#[trigger] objects[i]).leaf_set().contains(s);
                assert(objects[i].leaf_set().contains(s));
            }
            if objects[n - 1].leaf_set().contains(s) {
            }
        }
    }
}

/// Two rows that hold the same shapes have the same surfaces.
pub proof fn lemma_leaf_set_of_members(a: Seq<Arc<Hittable>>, b: Seq<Arc<Hittable>>)
    requires
        forall|y: Arc<Hittable>| a.contains(y) ==> b.contains(y),
    ensures
        leaf_set_of(a, a.len()).subset_of(leaf_set_of(b, b.len())),
{
    lemma_leaf_set_of(a, a.len());
    lemma_leaf_set_of(b, b.len());
    assert forall|s: Hittable| leaf_set_of(a, a.len()).contains(s) implies leaf_set_of(
        b,
        b.len(),
    ).contains(s) by {
        let i = choose|i: int| 0 <= i < a.len() && (#[trigger] a[i]).leaf_set().contains(s);
        assert(a.contains(a[i]));
        let j = choose|j: int| 0 <= j < b.len() && b[j] == a[i];
        assert(b[j].leaf_set().contains(s));
    }
}

/// The hierarchy over a row has the surfaces of the row, no more and no
/// fewer.
pub proof fn lemma_build_leaf_set(
    objects: Seq<Arc<Hittable>>,
    extent: spec_fn(Interval) -> Scalar,
)
    requires
        objects.len() >= 1,
    ensures
        Hittable::Bvh(build_spec(objects, extent)).leaf_set() == leaf_set_of(
            objects,
            objects.len(),
        ),
    decreases objects.len(),
{
    let node = build_spec(objects, extent);
    let tree = Hittable::Bvh(node);
    let all = leaf_set_of(objects, objects.len());
    lemma_leaf_set_of(objects, objects.len());
    if objects.len() == 1 {
        assert forall|s: Hittable| tree.leaf_set().contains(s) <==> all.contains(s) by {
            assert(objects[0].leaf_set().contains(s) ==> all.contains(s));
        }
        assert(tree.leaf_set() =~= all);
    } else if objects.len() == 2 {
        assert forall|s: Hittable| tree.leaf_set().contains(s) <==> all.contains(s) by {
            assert(objects[0].leaf_set().contains(s) ==> all.contains(s));
            assert(objects[1].leaf_set().contains(s) ==> all.contains(s));
        }
        assert(tree.leaf_set() =~= all);
    } else {
        let bbox = node.bbox;
        let axis = AABB::longest_axis_spec(extent(bbox.x), extent(bbox.y), extent(bbox.z));
        let sorted = sorted_spec(objects, objects.len(), axis);
        let mid = (objects.len() / 2) as int;
        lemma_sorted(objects, objects.len(), axis);
        let lo = sorted.subrange(0, mid);
        let hi = sorted.subrange(mid, sorted.len() as int);
        lemma_build_leaf_set(lo, extent);
        lemma_build_leaf_set(hi, extent);
        assert(objects.subrange(0, objects.len() as int) == objects);
        assert forall|y: Arc<Hittable>| lo.contains(y) implies objects.contains(y) by {
            let i = choose|i: int| 0 <= i < lo.len() && lo[i] == y;
            assert(sorted[i] == y);
            assert(sorted.contains(y));
        }
        assert forall|y: Arc<Hittable>| hi.contains(y) implies objects.contains(y) by {
            let i = choose|i: int| 0 <= i < hi.len() && hi[i] == y;
            assert(sorted[i + mid] == y);
            assert(sorted.contains(y));
        }
        lemma_leaf_set_of_members(lo, objects);
        lemma_leaf_set_of_members(hi, objects);
        lemma_leaf_set_of(lo, lo.len());
        lemma_leaf_set_of(hi, hi.len());
        assert forall|s: Hittable| all.contains(s) implies tree.leaf_set().contains(s) by {
            let i = choose|i: int|
                0 <= i < objects.len() && (#[trigger] objects[i]).leaf_set().contains(s);
            assert(objects.contains(objects[i]));
            assert(sorted.contains(objects[i]));
            let j = choose|j: int| 0 <= j < sorted.len() && sorted[j] == objects[i];
            if j < mid {
                assert(lo[j] == objects[i]);
                assert(lo[j].leaf_set().contains(s));
            } else {
                assert(hi[j - mid] == objects[i]);
                assert(hi[j - mid].leaf_set().contains(s));
            }
        }
        assert(tree.leaf_set() =~= all);
    }
}

/// A hierarchy built over a row of surfaces, and a scan of the row, find the
/// same nearest hit: both find nothing, or both find a hit at the same
/// distance; and both find the same hit, with the same material, where hits
/// at the same distance are the same hit. This holds of a leaf probe that is
/// regular and of boxes that are sound.
pub proof fn lemma_hierarchy_matches_scan(
    objects: Seq<Arc<Hittable>>,
    extent: spec_fn(Interval) -> Scalar,
    leaf: spec_fn(Hittable, Ray, Interval) -> Option<HitRecord>,
    slabs: spec_fn(AABB, Ray) -> (Slab, Slab, Slab),
    r: Ray,
    ray_t: Interval,
)
    requires
        objects.len() >= 1,
        forall|i: int| 0 <= i < objects.len() ==> (#[trigger] objects[i]).is_leaf(),
        probe_regular(leaf, r),
        boxes_sound(&Hittable::Bvh(build_spec(objects, extent)), leaf, slabs, r),
    ensures
        ({
            let in_tree = Hittable::Bvh(build_spec(objects, extent)).hit_spec(
                leaf,
                slabs,
                r,
                ray_t,
            );
            let in_row = scan_spec(objects, objects.len(), leaf, slabs, r, ray_t);
            &&& in_tree is None <==> in_row is None
            &&& in_tree is Some && in_row is Some ==> in_tree->0.t.eq_spec(in_row->0.t)
            &&& ties_agree(leaf_set_of(objects, objects.len()), leaf, r, ray_t) ==> in_tree
                == in_row
        }),
{
    let tree = Hittable::Bvh(build_spec(objects, extent));
    let in_tree = tree.hit_spec(leaf, slabs, r, ray_t);
    let in_row = scan_spec(objects, objects.len(), leaf, slabs, r, ray_t);
    lemma_build_leaf_set(objects, extent);
    lemma_hit_is_nearest(&tree, leaf, slabs, r, ray_t);
    assert forall|i: int| 0 <= i < objects.len() implies boxes_sound(
        &*(#[trigger] objects[i]),
        leaf,
        slabs,
        r,
    ) by {
        assert(objects[i].is_leaf());
    }
    lemma_scan_is_nearest(objects, objects.len(), leaf, slabs, r, ray_t);
    lemma_nearest_agree(leaf_set_of(objects, objects.len()), leaf, r, ray_t, in_tree, in_row);
}

/// The roots that the probe finds are in order: the farther is never less
/// than the nearer.
pub open spec fn roots_ordered(roots: spec_fn(Sphere, Ray) -> SphereRoots, r: Ray) -> bool {
    forall|s: Sphere| !(#[trigger] roots(s, r)).far.lt_spec(roots(s, r).near)
}

/// What spheres and parallelograms answer is regular: a hit lies inside the
/// range, and lowering the upper bound of the range keeps a hit below the
/// new bound and finds no other. For spheres this rests on the order of the
/// two roots.
pub proof fn lemma_surfaces_regular(
    roots: spec_fn(Sphere, Ray) -> SphereRoots,
    surface: spec_fn(Sphere, Ray, Scalar) -> SurfacePoint,
    crossing: spec_fn(Quad, Ray) -> PlaneCrossing,
    r: Ray,
)
    requires
        roots_ordered(roots, r),
    ensures
        probe_regular(surface_leaf(roots, surface, crossing), r),
{
    let leaf = surface_leaf(roots, surface, crossing);
    assert forall|s: Hittable, iv: Interval| (#[trigger] leaf(s, r, iv)) matches Some(rec)
        ==> iv.min.le_spec(rec.t) && rec.t.le_spec(iv.max) by {
        assert(leaf(s, r, iv) == surface_hit_spec(s, roots, surface, crossing, r, iv));
    }
    assert forall|s: Hittable, iv: Interval, max: Scalar| max.le_spec(iv.max) implies {
        let whole = leaf(s, r, iv);
        let part = #[trigger] leaf(s, r, iv.with_max(max));
        &&& part is None || part == whole
        &&& (whole matches Some(rec) && rec.t.lt_spec(max)) ==> part == whole
    } by {
        assert(leaf(s, r, iv) == surface_hit_spec(s, roots, surface, crossing, r, iv));
        assert(leaf(s, r, iv.with_max(max)) == surface_hit_spec(
            s,
            roots,
            surface,
            crossing,
            r,
            iv.with_max(max),
        ));
        match s {
            Hittable::Sphere(sphere) => {
                let q = roots(sphere, r);
                lemma_nearest_root_restricts(q.discriminant, q.near, q.far, iv, max);
            },
            Hittable::Quad(quad) => {
                let c = crossing(quad, r);
                lemma_plane_hit_restricts(c.denom, c.t, c.alpha, c.beta, iv, max);
            },
            _ => {},
        }
    }
}

/// A hierarchy built over spheres and parallelograms, and a scan of the
/// same row, find the same nearest hit, whatever the arithmetic behind the
/// tests, as long as the roots of a sphere come in order and no box is
/// missed by a ray that hits a surface inside it.
pub proof fn lemma_hierarchy_matches_scan_of_surfaces(
    objects: Seq<Arc<Hittable>>,
    extent: spec_fn(Interval) -> Scalar,
    roots: spec_fn(Sphere, Ray) -> SphereRoots,
    surface: spec_fn(Sphere, Ray, Scalar) -> SurfacePoint,
    crossing: spec_fn(Quad, Ray) -> PlaneCrossing,
    slabs: spec_fn(AABB, Ray) -> (Slab, Slab, Slab),
    r: Ray,
    ray_t: Interval,
)
    requires
        objects.len() >= 1,
        forall|i: int| 0 <= i < objects.len() ==> (#[trigger] objects[i]).is_leaf(),
        roots_ordered(roots, r),
        boxes_sound(
            &Hittable::Bvh(build_spec(objects, extent)),
            surface_leaf(roots, surface, crossing),
            slabs,
            r,
        ),
    ensures
        ({
            let leaf = surface_leaf(roots, surface, crossing);
            let in_tree = Hittable::Bvh(build_spec(objects, extent)).hit_spec(
                leaf,
                slabs,
                r,
                ray_t,
            );
            let in_row = scan_spec(objects, objects.len(), leaf, slabs, r, ray_t);
            &&& in_tree is None <==> in_row is None
            &&& in_tree is Some && in_row is Some ==> in_tree->0.t.eq_spec(in_row->0.t)
            &&& ties_agree(leaf_set_of(objects, objects.len()), leaf, r, ray_t) ==> in_tree
                == in_row
        }),
{
    lemma_surfaces_regular(roots, surface, crossing, r);
    lemma_hierarchy_matches_scan(
        objects,
        extent,
        surface_leaf(roots, surface, crossing),
        slabs,
        r,
        ray_t,
    );
}

} // verus!
