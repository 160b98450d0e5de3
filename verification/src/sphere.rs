//! Spheres, still or moving.
use vstd::prelude::*;
use std::sync::Arc;
use crate::aabb::AABB;
use crate::hittable::HitRecord;
use crate::interval::Interval;
use crate::material::Material;
use crate::ray::Ray;
use crate::scalar::Scalar;
use crate::vec::{Point3, Vec3};

verus! {

/// A sphere whose centre moves along a ray: at time `t` it is at
/// `center.orig + t * center.dir`. A still sphere has a zero direction.
#[derive(Clone, Debug)]
pub struct Sphere {
    pub center: Ray,
    pub radius: Scalar,
    pub mat: Arc<Material>,
    pub bbox: AABB,
}

/// The quadratic of a ray and a sphere: its discriminant and its two roots,
/// the nearer first.
#[derive(Clone, Copy, Debug)]
pub struct SphereRoots {
    pub discriminant: Scalar,
    pub near: Scalar,
    pub far: Scalar,
}

/// The place at which a ray meets a surface: the point, the outward normal
/// there, the product of the ray's direction with that normal, and the
/// surface coordinates.
#[derive(Clone, Copy, Debug)]
pub struct SurfacePoint {
    pub p: Point3,
    pub outward_normal: Vec3,
    pub facing: Scalar,
    pub u: Scalar,
    pub v: Scalar,
}

/// The record of a hit at a place of a surface: the face is the front one
/// if the ray runs against the outward normal, and the normal of the record
/// points against the ray.
pub open spec fn record_spec(at: SurfacePoint, mat: Arc<Material>, t: Scalar) -> HitRecord {
    HitRecord {
        p: at.p,
        normal: if at.facing.lt_spec(Scalar::zero_spec()) {
            at.outward_normal
        } else {
            at.outward_normal.neg_spec()
        },
        mat,
        t,
        u: at.u,
        v: at.v,
        front_face: at.facing.lt_spec(Scalar::zero_spec()),
    }
}

/// The record of a hit at a place of a surface.
pub fn record(at: SurfacePoint, mat: Arc<Material>, t: Scalar) -> (rec: HitRecord)
    ensures
        rec == record_spec(at, mat, t),
{
    let mut rec = HitRecord::new(at.p, at.outward_normal, mat, t);
    rec.set_face_normal(at.facing, &at.outward_normal);
    rec.u = at.u;
    rec.v = at.v;
    rec
}

/// The roots probe as a function: the one answer that the probe can give for
/// a sphere and a ray.
pub open spec fn roots_fn<F: Fn(&Sphere, &Ray) -> SphereRoots>(roots: &F) -> spec_fn(
    Sphere,
    Ray,
) -> SphereRoots {
    |s: Sphere, r: Ray| choose|o: SphereRoots| call_ensures(*roots, (&s, &r), o)
}

/// The surface probe as a function: the one answer that the probe can give
/// for a sphere, a ray and a ray parameter.
pub open spec fn surface_fn<G: Fn(&Sphere, &Ray, Scalar) -> SurfacePoint>(surface: &G) -> spec_fn(
    Sphere,
    Ray,
    Scalar,
) -> SurfacePoint {
    |s: Sphere, r: Ray, t: Scalar| choose|o: SurfacePoint| call_ensures(*surface, (&s, &r, t), o)
}

/// The two probes of a sphere can be asked anything.
pub open spec fn sphere_probes_callable<F, G>(roots: &F, surface: &G) -> bool where
    F: Fn(&Sphere, &Ray) -> SphereRoots,
    G: Fn(&Sphere, &Ray, Scalar) -> SurfacePoint,
 {
    &&& forall|s: Sphere, r: Ray| call_requires(*roots, (&s, &r))
    &&& forall|s: Sphere, r: Ray, t: Scalar| call_requires(*surface, (&s, &r, t))
}

/// What the two probes of a sphere answer depends on nothing but the
/// question.
pub open spec fn sphere_probes_functional<F, G>(roots: &F, surface: &G) -> bool where
    F: Fn(&Sphere, &Ray) -> SphereRoots,
    G: Fn(&Sphere, &Ray, Scalar) -> SurfacePoint,
 {
    &&& forall|s: Sphere, r: Ray, o1: SphereRoots, o2: SphereRoots|
        call_ensures(*roots, (&s, &r), o1) && call_ensures(*roots, (&s, &r), o2) ==> o1 == o2
    &&& forall|s: Sphere, r: Ray, t: Scalar, o1: SurfacePoint, o2: SurfacePoint|
        call_ensures(*surface, (&s, &r, t), o1) && call_ensures(*surface, (&s, &r, t), o2) ==> o1
            == o2
}

/// A radius is never negative: a negative number, and what is not a number,
/// count as 0.
pub open spec fn radius_spec(radius: Scalar) -> Scalar {
    if radius.nan() || radius.lt_spec(Scalar::zero_spec()) {
        Scalar::zero_spec()
    } else {
        radius
    }
}

impl Sphere {
    /// The ray parameter of the hit, from the discriminant of the quadratic
    /// and its two roots: none if the discriminant carries a minus sign, else
    /// the nearer root if it lies strictly inside `ray_t`, else the farther
    /// root if that does, else none.
    pub open spec fn nearest_root_spec(
        discriminant: Scalar,
        near: Scalar,
        far: Scalar,
        ray_t: Interval,
    ) -> Option<Scalar> {
        if discriminant.sign_negative() {
            None
        } else if ray_t.surrounds_spec(near) {
            Some(near)
        } else if ray_t.surrounds_spec(far) {
            Some(far)
        } else {
            None
        }
    }

    /// The hit of a ray on the sphere within `ray_t`: at the root that is
    /// picked, if one is, with the record of the surface there.
    pub open spec fn hit_spec(
        &self,
        roots: spec_fn(Sphere, Ray) -> SphereRoots,
        surface: spec_fn(Sphere, Ray, Scalar) -> SurfacePoint,
        r: Ray,
        ray_t: Interval,
    ) -> Option<HitRecord> {
        let q = roots(*self, r);
        match Sphere::nearest_root_spec(q.discriminant, q.near, q.far, ray_t) {
            None => None,
            Some(t) => Some(record_spec(surface(*self, r, t), self.mat, t)),
        }
    }

    /// A still sphere. Its box is what `bound` answers for its centre and
    /// radius.
    pub fn new<S>(static_center: Point3, radius: Scalar, mat: Arc<Material>, bound: &S) -> (s:
        Sphere) where S: Fn(&Ray, Scalar) -> AABB
        requires
            forall|c: Ray, r: Scalar| call_requires(*bound, (&c, r)),
        ensures
            s.center == (Ray {
                orig: static_center,
                dir: Vec3(Scalar::zero_spec(), Scalar::zero_spec(), Scalar::zero_spec()),
                tm: Scalar::zero_spec(),
            }),
            s.radius == radius_spec(radius),
            s.mat == mat,
            call_ensures(*bound, (&s.center, s.radius), s.bbox),
    {
        Sphere::new_moving(static_center, Vec3::zero(), radius, mat, bound)
    }

    /// A sphere that moves from `center_1` at time 0 by `travel` until time
    /// 1. Its box is what `bound` answers for its moving centre and its
    /// radius.
    pub fn new_moving<S>(
        center_1: Point3,
        travel: Vec3,
        radius: Scalar,
        mat: Arc<Material>,
        bound: &S,
    ) -> (s: Sphere) where S: Fn(&Ray, Scalar) -> AABB
        requires
            forall|c: Ray, r: Scalar| call_requires(*bound, (&c, r)),
        ensures
            s.center == (Ray { orig: center_1, dir: travel, tm: Scalar::zero_spec() }),
            s.radius == radius_spec(radius),
            s.mat == mat,
            call_ensures(*bound, (&s.center, s.radius), s.bbox),
    {
        let radius = if radius.is_nan() || radius.lt(&Scalar::zero()) {
            Scalar::zero()
        } else {
            radius
        };
        let center = Ray::new(center_1, travel);
        let bbox = bound(&center, radius);
        Sphere { center, radius, mat, bbox }
    }

    /// Picks the root of the sphere's quadratic at which the ray hits.
    pub fn nearest_root(discriminant: Scalar, near: Scalar, far: Scalar, ray_t: &Interval) -> (t:
        Option<Scalar>)
        ensures
            t == Sphere::nearest_root_spec(discriminant, near, far, *ray_t),
    {
        if discriminant.is_sign_negative() {
            return None;
        }
        if ray_t.surrounds(near) {
            Some(near)
        } else if ray_t.surrounds(far) {
            Some(far)
        } else {
            None
        }
    }

    /// Tests a ray against the sphere. `roots` solves the quadratic of the
    /// ray and the sphere, and `surface` describes the sphere where the ray
    /// meets it.
    pub fn hit<F, G>(&self, r: &Ray, ray_t: Interval, roots: &F, surface: &G) -> (rec: Option<
        HitRecord,
    >) where
        F: Fn(&Sphere, &Ray) -> SphereRoots,
        G: Fn(&Sphere, &Ray, Scalar) -> SurfacePoint,

        requires
            sphere_probes_callable(roots, surface),
        ensures
            sphere_probes_functional(roots, surface) ==> rec == self.hit_spec(
                roots_fn(roots),
                surface_fn(surface),
                *r,
                ray_t,
            ),
            rec matches Some(x) ==> x.mat == self.mat && ray_t.surrounds_spec(x.t),
    {
        let q = roots(self, r);
        match Sphere::nearest_root(q.discriminant, q.near, q.far, &ray_t) {
            None => None,
            Some(t) => Some(record(surface(self, r, t), self.mat.clone(), t)),
        }
    }

    pub fn bounding_box(&self) -> (b: &AABB)
        ensures
            *b == self.bbox,
    {
        &self.bbox
    }
}

/// A root that is picked lies strictly inside the range, and with the upper
/// bound lowered the same root is picked as long as it stays below the bound,
/// and none otherwise.
pub proof fn lemma_nearest_root_restricts(
    discriminant: Scalar,
    near: Scalar,
    far: Scalar,
    ray_t: Interval,
    max: Scalar,
)
    requires
        !far.lt_spec(near),
        max.le_spec(ray_t.max),
    ensures
        Sphere::nearest_root_spec(discriminant, near, far, ray_t) matches Some(t)
            ==> ray_t.surrounds_spec(t),
        Sphere::nearest_root_spec(discriminant, near, far, ray_t.with_max(max)) == (
        match Sphere::nearest_root_spec(discriminant, near, far, ray_t) {
            Some(t) => if t.lt_spec(max) {
                Some(t)
            } else {
                None
            },
            None => None,
        }),
{
}

} // verus!
