//! Planar parallelograms.
use vstd::prelude::*;
use std::sync::Arc;
use crate::aabb::AABB;
use crate::hittable::HitRecord;
use crate::interval::Interval;
use crate::material::Material;
use crate::ray::Ray;
use crate::scalar::Scalar;
use crate::sphere::{record, record_spec, SurfacePoint};
use crate::vec::{Point3, Vec3, NEAR_ZERO_BITS};

verus! {

/// The parallelogram with corner `q` and edges `u` and `v`, with what is
/// derived from them: the plane's unit `normal`, its offset `d`, and the
/// vector `w` that turns a point of the plane into its two coordinates.
#[derive(Clone, Debug)]
pub struct Quad {
    pub q: Point3,
    pub u: Vec3,
    pub v: Vec3,
    pub w: Vec3,
    pub mat: Arc<Material>,
    pub bbox: AABB,
    pub normal: Vec3,
    pub d: Scalar,
}

/// What is derived from the corner and edges of a parallelogram: the unit
/// normal of its plane, the plane's offset, the vector that turns a point of
/// the plane into its two coordinates, and the box around it.
#[derive(Clone, Copy, Debug)]
pub struct QuadFrame {
    pub normal: Vec3,
    pub d: Scalar,
    pub w: Vec3,
    pub bbox: AABB,
}

/// Where a ray crosses the plane of a parallelogram: the product of the
/// plane's normal with the ray's direction, the ray parameter and the point
/// of the crossing, and the two plane coordinates of that point.
#[derive(Clone, Copy, Debug)]
pub struct PlaneCrossing {
    pub denom: Scalar,
    pub t: Scalar,
    pub p: Point3,
    pub alpha: Scalar,
    pub beta: Scalar,
}

/// The crossing probe as a function: the one answer that the probe can give
/// for a parallelogram and a ray.
pub open spec fn crossing_fn<F: Fn(&Quad, &Ray) -> PlaneCrossing>(crossing: &F) -> spec_fn(
    Quad,
    Ray,
) -> PlaneCrossing {
    |q: Quad, r: Ray| choose|o: PlaneCrossing| call_ensures(*crossing, (&q, &r), o)
}

/// The crossing probe can be asked anything.
pub open spec fn crossing_callable<F: Fn(&Quad, &Ray) -> PlaneCrossing>(crossing: &F) -> bool {
    forall|q: Quad, r: Ray| call_requires(*crossing, (&q, &r))
}

/// What the crossing probe answers depends on nothing but the question.
pub open spec fn crossing_functional<F: Fn(&Quad, &Ray) -> PlaneCrossing>(crossing: &F) -> bool {
    forall|q: Quad, r: Ray, o1: PlaneCrossing, o2: PlaneCrossing|
        call_ensures(*crossing, (&q, &r), o1) && call_ensures(*crossing, (&q, &r), o2) ==> o1
            == o2
}

impl Quad {
    /// The hit of a ray on the parallelogram within `ray_t`: at the crossing
    /// with the plane, if that counts, with the plane's normal turned
    /// against the ray.
    pub open spec fn hit_spec(
        &self,
        crossing: spec_fn(Quad, Ray) -> PlaneCrossing,
        r: Ray,
        ray_t: Interval,
    ) -> Option<HitRecord> {
        let c = crossing(*self, r);
        match Quad::plane_hit_spec(c.denom, c.t, c.alpha, c.beta, ray_t) {
            None => None,
            Some(uv) => Some(
                record_spec(
                    SurfacePoint {
                        p: c.p,
                        outward_normal: self.normal,
                        facing: c.denom,
                        u: uv.0,
                        v: uv.1,
                    },
                    self.mat,
                    c.t,
                ),
            ),
        }
    }

    /// A point with plane coordinates `(a, b)` belongs to the parallelogram
    /// exactly if both lie in `[0, 1]`; they are then its surface
    /// coordinates.
    pub open spec fn is_interior_spec(a: Scalar, b: Scalar) -> Option<(Scalar, Scalar)> {
        let unit = Interval { min: Scalar::zero_spec(), max: Scalar::one_spec() };
        if !unit.contains_spec(a) || !unit.contains_spec(b) {
            None
        } else {
            Some((a, b))
        }
    }

    /// Whether a ray meets the parallelogram, and with which surface
    /// coordinates. `denom` is the normal's product with the ray's direction,
    /// `t` the parameter at which the ray crosses the plane, `alpha` and
    /// `beta` the plane coordinates of the crossing. There is no hit if the
    /// ray runs parallel to the plane (`denom` below the threshold in
    /// absolute value), if `t` lies outside `ray_t`, or if the crossing lies
    /// outside the parallelogram.
    pub open spec fn plane_hit_spec(
        denom: Scalar,
        t: Scalar,
        alpha: Scalar,
        beta: Scalar,
        ray_t: Interval,
    ) -> Option<(Scalar, Scalar)> {
        if denom.abs_spec().lt_spec(Scalar { bits: NEAR_ZERO_BITS }) {
            None
        } else if !ray_t.contains_spec(t) {
            None
        } else {
            Quad::is_interior_spec(alpha, beta)
        }
    }

    /// A parallelogram with corner `q` and edges `u` and `v`. Normal,
    /// offset, basis and box are what `frame` answers for them.
    pub fn new<Q>(q: Point3, u: Vec3, v: Vec3, mat: Arc<Material>, frame: &Q) -> (quad: Quad) where
        Q: Fn(&Point3, &Vec3, &Vec3) -> QuadFrame,

        requires
            forall|q: Point3, u: Vec3, v: Vec3| call_requires(*frame, (&q, &u, &v)),
        ensures
            quad.q == q,
            quad.u == u,
            quad.v == v,
            quad.mat == mat,
            call_ensures(
                *frame,
                (&q, &u, &v),
                QuadFrame { normal: quad.normal, d: quad.d, w: quad.w, bbox: quad.bbox },
            ),
    {
        let derived = frame(&q, &u, &v);
        assert(derived == (QuadFrame {
            normal: derived.normal,
            d: derived.d,
            w: derived.w,
            bbox: derived.bbox,
        }));
        Quad { q, u, v, w: derived.w, mat, bbox: derived.bbox, normal: derived.normal, d: derived.d }
    }

    pub fn is_interior(a: Scalar, b: Scalar) -> (uv: Option<(Scalar, Scalar)>)
        ensures
            uv == Quad::is_interior_spec(a, b),
    {
        let unit = Interval::new(Scalar::zero(), Scalar::one());
        if !unit.contains(a) || !unit.contains(b) {
            return None;
        }
        Some((a, b))
    }

    /// Decides a ray's hit on the parallelogram from the four numbers of the
    /// crossing.
    pub fn plane_hit(denom: Scalar, t: Scalar, alpha: Scalar, beta: Scalar, ray_t: &Interval) -> (uv:
        Option<(Scalar, Scalar)>)
        ensures
            uv == Quad::plane_hit_spec(denom, t, alpha, beta, *ray_t),
    {
        if denom.abs().lt(&Scalar::from_bits(NEAR_ZERO_BITS)) {
            return None;
        }
        if !ray_t.contains(t) {
            return None;
        }
        Quad::is_interior(alpha, beta)
    }

    /// Tests a ray against the parallelogram. `crossing` finds where the ray
    /// crosses the plane.
    pub fn hit<F>(&self, r: &Ray, ray_t: Interval, crossing: &F) -> (rec: Option<HitRecord>) where
        F: Fn(&Quad, &Ray) -> PlaneCrossing,

        requires
            crossing_callable(crossing),
        ensures
            crossing_functional(crossing) ==> rec == self.hit_spec(
                crossing_fn(crossing),
                *r,
                ray_t,
            ),
            rec matches Some(x) ==> x.mat == self.mat && ray_t.contains_spec(x.t),
    {
        let c = crossing(self, r);
        match Quad::plane_hit(c.denom, c.t, c.alpha, c.beta, &ray_t) {
            None => None,
            Some((u, v)) => Some(
                record(
                    SurfacePoint { p: c.p, outward_normal: self.normal, facing: c.denom, u, v },
                    self.mat.clone(),
                    c.t,
                ),
            ),
        }
    }

    pub fn bounding_box(&self) -> (b: &AABB)
        ensures
            *b == self.bbox,
    {
        &self.bbox
    }
}

/// A ray whose direction is orthogonal to the normal, so that their product
/// is zero, hits nothing, whatever its origin and whatever else is computed.
pub proof fn lemma_parallel_ray_misses(
    denom: Scalar,
    t: Scalar,
    alpha: Scalar,
    beta: Scalar,
    ray_t: Interval,
)
    requires
        denom.eq_spec(Scalar::zero_spec()),
    ensures
        Quad::plane_hit_spec(denom, t, alpha, beta, ray_t) is None,
{
}

/// A hit lies inside the range, and with the upper bound lowered the hit
/// stays as long as it does not exceed the bound.
pub proof fn lemma_plane_hit_restricts(
    denom: Scalar,
    t: Scalar,
    alpha: Scalar,
    beta: Scalar,
    ray_t: Interval,
    max: Scalar,
)
    requires
        max.le_spec(ray_t.max),
    ensures
        Quad::plane_hit_spec(denom, t, alpha, beta, ray_t) is Some ==> ray_t.contains_spec(t),
        Quad::plane_hit_spec(denom, t, alpha, beta, ray_t.with_max(max)) == (if t.le_spec(max) {
            Quad::plane_hit_spec(denom, t, alpha, beta, ray_t)
        } else {
            None
        }),
{
}

} // verus!
