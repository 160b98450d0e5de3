//! Hit records, the closed family of shapes, and lists of shapes.
//!
//! A ray is tested against a tree of shapes. The arithmetic of a test, that
//! is where a ray crosses the planes of a box, the roots of its quadratic
//! with a sphere and its crossing with the plane of a parallelogram, comes
//! from probes that the caller supplies. Which probes are asked, over which
//! range, and which answer wins is decided here.
use vstd::prelude::*;
use std::sync::Arc;
use crate::aabb::{AABB, Slab};
use crate::bounds::{found_rightly, lemma_found_rightly};
use crate::bvh::BVHNode;
use crate::interval::Interval;
use crate::material::Material;
use crate::quad::{crossing_fn, PlaneCrossing, Quad};
use crate::ray::Ray;
use crate::scalar::Scalar;
use crate::sphere::{roots_fn, surface_fn, Sphere, SphereRoots, SurfacePoint};
use crate::vec::{Point3, Vec3};

verus! {

/// Where and how a ray met a surface.
#[derive(Clone, Debug)]
pub struct HitRecord {
    pub p: Point3,
    pub normal: Vec3,
    pub mat: Arc<Material>,
    pub t: Scalar,
    pub u: Scalar,
    pub v: Scalar,
    pub front_face: bool,
}

impl HitRecord {
    /// A record with surface coordinates `(0, 0)` and the back face towards
    /// the ray.
    pub fn new(p: Point3, normal: Vec3, mat: Arc<Material>, t: Scalar) -> (rec: HitRecord)
        ensures
            rec == (HitRecord {
                p,
                normal,
                mat,
                t,
                u: Scalar::zero_spec(),
                v: Scalar::zero_spec(),
                front_face: false,
            }),
    {
        HitRecord { p, normal, mat, t, u: Scalar::zero(), v: Scalar::zero(), front_face: false }
    }

    /// Sets the face flag and the normal from `facing`, the product of the
    /// ray's direction with the outward normal: a negative product means that
    /// the ray comes from outside, and the stored normal always points
    /// against the ray.
    pub fn set_face_normal(&mut self, facing: Scalar, outward_normal: &Vec3)
        ensures
            final(self).front_face == facing.lt_spec(Scalar::zero_spec()),
            final(self).normal == if facing.lt_spec(Scalar::zero_spec()) {
                *outward_normal
            } else {
                outward_normal.neg_spec()
            },
            final(self).p == old(self).p,
            final(self).mat == old(self).mat,
            final(self).t == old(self).t,
            final(self).u == old(self).u,
            final(self).v == old(self).v,
    {
        self.front_face = facing.lt(&Scalar::zero());
        self.normal = if self.front_face {
            *outward_normal
        } else {
            outward_normal.neg()
        };
    }
}

/// A shape that a ray can hit.
#[derive(Clone, Debug)]
pub enum Hittable {
    Sphere(Sphere),
    Quad(Quad),
    List(HittableList),
    Bvh(BVHNode),
}

/// Shapes in a row, with the box around all of them.
#[derive(Clone, Debug)]
pub struct HittableList {
    pub objects: Vec<Arc<Hittable>>,
    pub bbox: AABB,
}

/// The arithmetic behind the test of a ray: where the ray crosses the three
/// pairs of planes of a box, the roots of its quadratic with a sphere, the
/// place on a sphere that it reaches at a root, and its crossing with the
/// plane of a parallelogram.
pub struct Probes<B, F, G, C> {
    pub slabs: B,
    pub roots: F,
    pub surface: G,
    pub crossing: C,
}

/// The answer of the slab probe as a function.
pub open spec fn slab_fn<B: Fn(&AABB, &Ray) -> (Slab, Slab, Slab)>(slabs: &B) -> spec_fn(
    AABB,
    Ray,
) -> (Slab, Slab, Slab) {
    |b: AABB, r: Ray| choose|o: (Slab, Slab, Slab)| call_ensures(*slabs, (&b, &r), o)
}

/// What a single surface answers to a ray: a sphere by its roots and the
/// surface there, a parallelogram by the crossing with its plane. A group
/// is no surface and answers nothing.
pub open spec fn surface_hit_spec(
    h: Hittable,
    roots: spec_fn(Sphere, Ray) -> SphereRoots,
    surface: spec_fn(Sphere, Ray, Scalar) -> SurfacePoint,
    crossing: spec_fn(Quad, Ray) -> PlaneCrossing,
    r: Ray,
    ray_t: Interval,
) -> Option<HitRecord> {
    match h {
        Hittable::Sphere(s) => s.hit_spec(roots, surface, r, ray_t),
        Hittable::Quad(q) => q.hit_spec(crossing, r, ray_t),
        _ => None,
    }
}

/// What single surfaces answer, as one function of the surface, the ray and
/// the range.
pub open spec fn surface_leaf(
    roots: spec_fn(Sphere, Ray) -> SphereRoots,
    surface: spec_fn(Sphere, Ray, Scalar) -> SurfacePoint,
    crossing: spec_fn(Quad, Ray) -> PlaneCrossing,
) -> spec_fn(Hittable, Ray, Interval) -> Option<HitRecord> {
    |h: Hittable, r: Ray, iv: Interval| surface_hit_spec(h, roots, surface, crossing, r, iv)
}

impl<B, F, G, C> Probes<B, F, G, C> where
    B: Fn(&AABB, &Ray) -> (Slab, Slab, Slab),
    F: Fn(&Sphere, &Ray) -> SphereRoots,
    G: Fn(&Sphere, &Ray, Scalar) -> SurfacePoint,
    C: Fn(&Quad, &Ray) -> PlaneCrossing,
 {
    /// Every probe can be asked anything.
    pub open spec fn callable(&self) -> bool {
        &&& forall|b: AABB, r: Ray| call_requires(self.slabs, (&b, &r))
        &&& forall|s: Sphere, r: Ray| call_requires(self.roots, (&s, &r))
        &&& forall|s: Sphere, r: Ray, t: Scalar| call_requires(self.surface, (&s, &r, t))
        &&& forall|q: Quad, r: Ray| call_requires(self.crossing, (&q, &r))
    }

    /// What a probe answers depends on nothing but the question.
    pub open spec fn functional(&self) -> bool {
        &&& forall|b: AABB, r: Ray, o1: (Slab, Slab, Slab), o2: (Slab, Slab, Slab)|
            call_ensures(self.slabs, (&b, &r), o1) && call_ensures(self.slabs, (&b, &r), o2)
                ==> o1 == o2
        &&& forall|s: Sphere, r: Ray, o1: SphereRoots, o2: SphereRoots|
            call_ensures(self.roots, (&s, &r), o1) && call_ensures(self.roots, (&s, &r), o2)
                ==> o1 == o2
        &&& forall|s: Sphere, r: Ray, t: Scalar, o1: SurfacePoint, o2: SurfacePoint|
            call_ensures(self.surface, (&s, &r, t), o1) && call_ensures(
                self.surface,
                (&s, &r, t),
                o2,
            ) ==> o1 == o2
        &&& forall|q: Quad, r: Ray, o1: PlaneCrossing, o2: PlaneCrossing|
            call_ensures(self.crossing, (&q, &r), o1) && call_ensures(self.crossing, (&q, &r), o2)
                ==> o1 == o2
    }

    /// What single surfaces answer through these probes.
    pub open spec fn leaf_spec(&self) -> spec_fn(Hittable, Ray, Interval) -> Option<HitRecord> {
        surface_leaf(roots_fn(&self.roots), surface_fn(&self.surface), crossing_fn(&self.crossing))
    }

    /// Where rays cross the planes of boxes, through these probes.
    pub open spec fn slab_spec(&self) -> spec_fn(AABB, Ray) -> (Slab, Slab, Slab) {
        slab_fn(&self.slabs)
    }
}

/// The upper bound for the next test: the distance of the hit so far, or the
/// range's own bound while nothing was hit.
pub open spec fn closest_so_far(found: Option<HitRecord>, ray_t: Interval) -> Scalar {
    match found {
        Some(rec) => rec.t,
        None => ray_t.max,
    }
}

/// The hit of a ray on the first `n` shapes of a row: each shape in turn is
/// tested up to the distance of the hit found so far, and a shape that is
/// hit replaces what was found.
pub open spec fn scan_spec(
    objects: Seq<Arc<Hittable>>,
    n: nat,
    leaf: spec_fn(Hittable, Ray, Interval) -> Option<HitRecord>,
    slabs: spec_fn(AABB, Ray) -> (Slab, Slab, Slab),
    r: Ray,
    ray_t: Interval,
) -> Option<HitRecord>
    decreases objects, n,
{
    if n == 0 || n > objects.len() {
        None
    } else {
        let found = scan_spec(objects, (n - 1) as nat, leaf, slabs, r, ray_t);
        let next = objects[n - 1].hit_spec(
            leaf,
            slabs,
            r,
            ray_t.with_max(closest_so_far(found, ray_t)),
        );
        match next {
            Some(rec) => Some(rec),
            None => found,
        }
    }
}

/// The box around the first `n` shapes of a row.
pub open spec fn bounds_of(objects: Seq<Arc<Hittable>>, n: nat) -> AABB
    decreases n,
{
    if n == 0 || n > objects.len() {
        AABB::empty_spec()
    } else {
        AABB::union_spec(bounds_of(objects, (n - 1) as nat), objects[n - 1].bounding_box_spec())
    }
}

/// Of two hits, the nearer; the first where neither is nearer.
pub open spec fn nearer_spec(first: Option<HitRecord>, second: Option<HitRecord>) -> Option<
    HitRecord,
> {
    match (first, second) {
        (Some(a), Some(b)) => Some(
            if b.t.lt_spec(a.t) {
                b
            } else {
                a
            },
        ),
        (Some(a), None) => Some(a),
        (None, Some(b)) => Some(b),
        (None, None) => None,
    }
}

impl Hittable {
    /// The box around the shape.
    pub open spec fn bounding_box_spec(&self) -> AABB {
        match *self {
            Hittable::Sphere(s) => s.bbox,
            Hittable::Quad(q) => q.bbox,
            Hittable::List(l) => l.bbox,
            Hittable::Bvh(n) => n.bbox,
        }
    }

    /// A single surface, as opposed to a group of shapes.
    pub open spec fn is_leaf(&self) -> bool {
        self is Sphere || self is Quad
    }

    /// The nearest hit of the ray on the shape within `ray_t`.
    ///
    /// A sphere or a parallelogram answers through the leaf probe. A list
    /// scans its members. A node of the hierarchy answers nothing if the ray
    /// misses its box; else it asks its left child over the whole range, its
    /// right child only up to the left child's hit, and returns the nearer.
    pub open spec fn hit_spec(
        &self,
        leaf: spec_fn(Hittable, Ray, Interval) -> Option<HitRecord>,
        slabs: spec_fn(AABB, Ray) -> (Slab, Slab, Slab),
        r: Ray,
        ray_t: Interval,
    ) -> Option<HitRecord>
        decreases self,
    {
        match *self {
            Hittable::Sphere(_) => leaf(*self, r, ray_t),
            Hittable::Quad(_) => leaf(*self, r, ray_t),
            Hittable::List(l) => scan_spec(l.objects@, l.objects@.len(), leaf, slabs, r, ray_t),
            Hittable::Bvh(n) => {
                let s = slabs(n.bbox, r);
                if !AABB::hit_spec(s.0, s.1, s.2, ray_t) {
                    None
                } else {
                    let hit_left = n.left.hit_spec(leaf, slabs, r, ray_t);
                    let hit_right = n.right.hit_spec(
                        leaf,
                        slabs,
                        r,
                        ray_t.with_max(closest_so_far(hit_left, ray_t)),
                    );
                    nearer_spec(hit_left, hit_right)
                }
            },
        }
    }

    /// The spheres and parallelograms of the shape.
    pub open spec fn leaf_set(&self) -> Set<Hittable>
        decreases self,
    {
        match *self {
            Hittable::Sphere(_) => set![*self],
            Hittable::Quad(_) => set![*self],
            Hittable::List(l) => leaf_set_of(l.objects@, l.objects@.len()),
            Hittable::Bvh(n) => n.left.leaf_set().union(n.right.leaf_set()),
        }
    }

    /// A surface of the shape is made of the material.
    pub open spec fn uses_material(&self, m: Arc<Material>) -> bool
        decreases self,
    {
        match *self {
            Hittable::Sphere(s) => s.mat == m,
            Hittable::Quad(q) => q.mat == m,
            Hittable::List(l) => exists|i: int|
                0 <= i < l.objects@.len() && (#[trigger] l.objects@[i]).uses_material(m),
            Hittable::Bvh(n) => n.left.uses_material(m) || n.right.uses_material(m),
        }
    }

    pub fn bounding_box(&self) -> (b: &AABB)
        ensures
            *b == self.bounding_box_spec(),
    {
        match self {
            Hittable::Sphere(s) => &s.bbox,
            Hittable::Quad(q) => &q.bbox,
            Hittable::List(l) => &l.bbox,
            Hittable::Bvh(n) => &n.bbox,
        }
    }

    /// Tests the ray against the shape.
    pub fn hit<B, F, G, C>(&self, r: &Ray, ray_t: Interval, probes: &Probes<B, F, G, C>) -> (rec:
        Option<HitRecord>) where
        B: Fn(&AABB, &Ray) -> (Slab, Slab, Slab),
        F: Fn(&Sphere, &Ray) -> SphereRoots,
        G: Fn(&Sphere, &Ray, Scalar) -> SurfacePoint,
        C: Fn(&Quad, &Ray) -> PlaneCrossing,

        requires
            probes.callable(),
        ensures
            probes.functional() ==> rec == self.hit_spec(
                probes.leaf_spec(),
                probes.slab_spec(),
                *r,
                ray_t,
            ),
            probes.functional() ==> found_rightly(
                self,
                probes.leaf_spec(),
                probes.slab_spec(),
                *r,
                ray_t,
                rec,
            ),
            rec matches Some(x) ==> self.uses_material(x.mat),
        decreases self,
    {
        let rec = match self {
            Hittable::Sphere(s) => s.hit(r, ray_t, &probes.roots, &probes.surface),
            Hittable::Quad(q) => q.hit(r, ray_t, &probes.crossing),
            Hittable::List(l) => l.hit(r, ray_t, probes),
            Hittable::Bvh(n) => n.hit(r, ray_t, probes),
        };
        proof {
            lemma_found_rightly(self, probes.leaf_spec(), probes.slab_spec(), *r, ray_t);
        }
        rec
    }
}

/// The spheres and parallelograms of the first `n` shapes of a row.
pub open spec fn leaf_set_of(objects: Seq<Arc<Hittable>>, n: nat) -> Set<Hittable>
    decreases objects, n,
{
    if n == 0 || n > objects.len() {
        Set::empty()
    } else {
        leaf_set_of(objects, (n - 1) as nat).union(objects[n - 1].leaf_set())
    }
}

impl HittableList {
    /// The list as a shape.
    pub open spec fn as_shape(self) -> Hittable {
        Hittable::List(self)
    }

    /// An empty list, with the empty box.
    pub fn new() -> (list: HittableList)
        ensures
            list.objects@ == Seq::<Arc<Hittable>>::empty(),
            list.bbox == AABB::empty_spec(),
    {
        HittableList { objects: Vec::new(), bbox: AABB::empty() }
    }

    /// Appends a shape and widens the box around it.
    pub fn add(&mut self, object: Arc<Hittable>)
        ensures
            final(self).objects@ == old(self).objects@.push(object),
            final(self).bbox == AABB::union_spec(old(self).bbox, object.bounding_box_spec()),
            old(self).bbox == bounds_of(old(self).objects@, old(self).objects@.len())
                ==> final(self).bbox == bounds_of(
                final(self).objects@,
                final(self).objects@.len(),
            ),
    {
        proof {
            lemma_bounds_of_prefix(self.objects@, self.objects@.push(object), self.objects@.len());
        }
        self.bbox = AABB::from_boxes(&self.bbox, object.bounding_box());
        self.objects.push(object);
    }

    pub fn objects(&self) -> (objects: &Vec<Arc<Hittable>>)
        ensures
            *objects == self.objects,
    {
        &self.objects
    }

    /// The shapes, to reorder or replace them. The box is left as it is.
    pub fn objects_mut(&mut self) -> (objects: &mut Vec<Arc<Hittable>>)
        ensures
            *objects == old(self).objects,
            final(self).objects == *final(objects),
            final(self).bbox == old(self).bbox,
    {
        &mut self.objects
    }

    pub fn bounding_box(&self) -> (b: &AABB)
        ensures
            *b == self.bbox,
    {
        &self.bbox
    }

    /// Scans the members for the nearest hit.
    pub fn hit<B, F, G, C>(&self, r: &Ray, ray_t: Interval, probes: &Probes<B, F, G, C>) -> (rec:
        Option<HitRecord>) where
        B: Fn(&AABB, &Ray) -> (Slab, Slab, Slab),
        F: Fn(&Sphere, &Ray) -> SphereRoots,
        G: Fn(&Sphere, &Ray, Scalar) -> SurfacePoint,
        C: Fn(&Quad, &Ray) -> PlaneCrossing,

        requires
            probes.callable(),
        ensures
            probes.functional() ==> rec == self.as_shape().hit_spec(
                probes.leaf_spec(),
                probes.slab_spec(),
                *r,
                ray_t,
            ),
            probes.functional() ==> found_rightly(
                &self.as_shape(),
                probes.leaf_spec(),
                probes.slab_spec(),
                *r,
                ray_t,
                rec,
            ),
            rec matches Some(x) ==> self.as_shape().uses_material(x.mat),
        decreases self,
    {
        proof {
            lemma_found_rightly(
                &self.as_shape(),
                probes.leaf_spec(),
                probes.slab_spec(),
                *r,
                ray_t,
            );
        }
        let mut hit_anything: Option<HitRecord> = None;
        let mut closest = ray_t.max;
        let mut k: usize = 0;
        while k < self.objects.len()
            invariant
                k <= self.objects.len(),
                probes.callable(),
                probes.functional() ==> hit_anything == scan_spec(
                    self.objects@,
                    k as nat,
                    probes.leaf_spec(),
                    probes.slab_spec(),
                    *r,
                    ray_t,
                ),
                closest == closest_so_far(hit_anything, ray_t),
                hit_anything matches Some(x) ==> self.as_shape().uses_material(x.mat),
            decreases self.objects.len() - k,
        {
            let object = &self.objects[k];
            if let Some(rec) = object.hit(r, Interval::new(ray_t.min, closest), probes) {
                proof {
                    let shape = self.as_shape();
                    assert(shape matches Hittable::List(l) && l.objects@[k as int].uses_material(
                        rec.mat,
                    ));
                    assert(shape.uses_material(rec.mat));
                }
                closest = rec.t;
                hit_anything = Some(rec);
            }
            k += 1;
        }
        hit_anything
    }
}

impl Default for HittableList {
    fn default() -> (list: HittableList)
        ensures
            list.objects@ == Seq::<Arc<Hittable>>::empty(),
            list.bbox == AABB::empty_spec(),
    {
        HittableList::new()
    }
}

/// The box around the first `n` shapes does not depend on what follows them.
pub proof fn lemma_bounds_of_prefix(a: Seq<Arc<Hittable>>, b: Seq<Arc<Hittable>>, n: nat)
    requires
        n <= a.len(),
        n <= b.len(),
        forall|i: int| 0 <= i < n ==> a[i] == b[i],
    ensures
        bounds_of(a, n) == bounds_of(b, n),
    decreases n,
{
    if n > 0 {
        lemma_bounds_of_prefix(a, b, (n - 1) as nat);
    }
}

} // verus!
