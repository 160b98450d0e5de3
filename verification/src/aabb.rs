//! Axis-aligned bounding boxes.
use vstd::prelude::*;
use crate::interval::Interval;
use crate::scalar::Scalar;
use crate::vec::{Axis, Point3};

verus! {

/// A box with faces parallel to the coordinate planes: one range per axis.
#[derive(Clone, Copy, Debug)]
pub struct AABB {
    pub x: Interval,
    pub y: Interval,
    pub z: Interval,
}

/// The two ray parameters at which a ray crosses the pair of planes that
/// bound a box along one axis, in the order lower plane, upper plane.
#[derive(Clone, Copy, Debug)]
pub struct Slab {
    pub t0: Scalar,
    pub t1: Scalar,
}

impl Slab {
    /// The range of ray parameters left of `iv` once the part outside this
    /// pair of planes is cut away.
    pub open spec fn narrow_spec(self, iv: Interval) -> Interval {
        let (near, far) = if self.t0.lt_spec(self.t1) {
            (self.t0, self.t1)
        } else {
            (self.t1, self.t0)
        };
        Interval {
            min: if iv.min.lt_spec(near) { near } else { iv.min },
            max: if far.lt_spec(iv.max) { far } else { iv.max },
        }
    }

    pub fn narrow(&self, iv: Interval) -> (out: Interval)
        ensures
            out == self.narrow_spec(iv),
    {
        let (near, far) = if self.t0.lt(&self.t1) {
            (self.t0, self.t1)
        } else {
            (self.t1, self.t0)
        };
        Interval {
            min: if near.gt(&iv.min) { near } else { iv.min },
            max: if far.lt(&iv.max) { far } else { iv.max },
        }
    }
}

/// The bit pattern of the least extent of a box along an axis: one
/// ten-thousandth.
pub const MIN_EXTENT_BITS: u64 = 0x3F1A_36E2_EB1C_432D;

/// A range that is shorter than the least extent is replaced by the range
/// widened to it. `size` is the length of the range and `expanded` the
/// widened range.
pub open spec fn pad_to_minimums_spec(interval: Interval, size: Scalar, expanded: Interval) -> Interval {
    if size.lt_spec(Scalar { bits: MIN_EXTENT_BITS }) {
        expanded
    } else {
        interval
    }
}

/// Keeps a box from being flat along an axis.
pub fn pad_to_minimums(interval: Interval, size: Scalar, expanded: Interval) -> (out: Interval)
    ensures
        out == pad_to_minimums_spec(interval, size, expanded),
{
    if size.lt(&Scalar::from_bits(MIN_EXTENT_BITS)) {
        expanded
    } else {
        interval
    }
}

/// The answer of the extent probe as a function: the one length that the
/// probe can return for a range.
pub open spec fn extent_fn<E: Fn(&Interval) -> Scalar>(extent: &E) -> spec_fn(Interval) -> Scalar {
    |iv: Interval| choose|o: Scalar| call_ensures(*extent, (&iv,), o)
}

/// The extent probe can be asked anything.
pub open spec fn extent_callable<E: Fn(&Interval) -> Scalar>(extent: &E) -> bool {
    forall|iv: Interval| call_requires(*extent, (&iv,))
}

/// What the extent probe answers depends on nothing but the question.
pub open spec fn extent_functional<E: Fn(&Interval) -> Scalar>(extent: &E) -> bool {
    forall|iv: Interval, o1: Scalar, o2: Scalar|
        call_ensures(*extent, (&iv,), o1) && call_ensures(*extent, (&iv,), o2) ==> o1 == o2
}

/// The answer of the widening probe as a function: the one range that the
/// probe can return for a range.
pub open spec fn expand_fn<X: Fn(&Interval) -> Interval>(expand: &X) -> spec_fn(
    Interval,
) -> Interval {
    |iv: Interval| choose|o: Interval| call_ensures(*expand, (&iv,), o)
}

/// The widening probe can be asked anything.
pub open spec fn expand_callable<X: Fn(&Interval) -> Interval>(expand: &X) -> bool {
    forall|iv: Interval| call_requires(*expand, (&iv,))
}

/// What the widening probe answers depends on nothing but the question.
pub open spec fn expand_functional<X: Fn(&Interval) -> Interval>(expand: &X) -> bool {
    forall|iv: Interval, o1: Interval, o2: Interval|
        call_ensures(*expand, (&iv,), o1) && call_ensures(*expand, (&iv,), o2) ==> o1 == o2
}

/// A range kept from being flat: the range itself if `extent` finds it as
/// long as the least extent, else what `expand` makes of it.
pub open spec fn padded_spec(
    iv: Interval,
    extent: spec_fn(Interval) -> Scalar,
    expand: spec_fn(Interval) -> Interval,
) -> Interval {
    pad_to_minimums_spec(iv, extent(iv), expand(iv))
}

/// Keeps a range from being flat. `extent` measures its length and `expand`
/// widens it to the least extent.
pub fn padded<E, X>(iv: Interval, extent: &E, expand: &X) -> (out: Interval) where
    E: Fn(&Interval) -> Scalar,
    X: Fn(&Interval) -> Interval,

    requires
        extent_callable(extent),
        expand_callable(expand),
    ensures
        extent_functional(extent) && expand_functional(expand) ==> out == padded_spec(
            iv,
            extent_fn(extent),
            expand_fn(expand),
        ),
        out == iv || call_ensures(*expand, (&iv,), out),
{
    pad_to_minimums(iv, extent(&iv), expand(&iv))
}

/// The range has no interior: its upper bound does not exceed its lower.
pub open spec fn closed_up(iv: Interval) -> bool {
    iv.max.le_spec(iv.min)
}

impl AABB {
    /// The box that holds no point.
    pub open spec fn empty_spec() -> AABB {
        AABB { x: Interval::empty_spec(), y: Interval::empty_spec(), z: Interval::empty_spec() }
    }

    /// The box that holds every point.
    pub open spec fn universe_spec() -> AABB {
        AABB {
            x: Interval::universe_spec(),
            y: Interval::universe_spec(),
            z: Interval::universe_spec(),
        }
    }

    /// The smallest box around two boxes.
    pub open spec fn union_spec(a: AABB, b: AABB) -> AABB {
        AABB {
            x: Interval::union_spec(a.x, b.x),
            y: Interval::union_spec(a.y, b.y),
            z: Interval::union_spec(a.z, b.z),
        }
    }

    /// The box's range along an axis.
    pub open spec fn axis_spec(self, axis: Axis) -> Interval {
        match axis {
            Axis::X => self.x,
            Axis::Y => self.y,
            Axis::Z => self.z,
        }
    }

    /// The point lies in the box.
    pub open spec fn contains_spec(self, p: Point3) -> bool {
        self.x.contains_spec(p.0) && self.y.contains_spec(p.1) && self.z.contains_spec(p.2)
    }

    /// The box over three ranges, each kept from being flat.
    pub open spec fn new_spec(
        x: Interval,
        y: Interval,
        z: Interval,
        extent: spec_fn(Interval) -> Scalar,
        expand: spec_fn(Interval) -> Interval,
    ) -> AABB {
        AABB {
            x: padded_spec(x, extent, expand),
            y: padded_spec(y, extent, expand),
            z: padded_spec(z, extent, expand),
        }
    }

    /// The box spanned by two corner points, in either order, before any
    /// flat range is widened.
    pub open spec fn from_points_spec(a: Point3, b: Point3) -> AABB {
        AABB {
            x: if a.0.le_spec(b.0) { Interval { min: a.0, max: b.0 } } else { Interval { min: b.0, max: a.0 } },
            y: if a.1.le_spec(b.1) { Interval { min: a.1, max: b.1 } } else { Interval { min: b.1, max: a.1 } },
            z: if a.2.le_spec(b.2) { Interval { min: a.2, max: b.2 } } else { Interval { min: b.2, max: a.2 } },
        }
    }

    /// The slab test: the ray meets the box within `ray_t` exactly if cutting
    /// `ray_t` down by the three slabs in turn, X, Y, Z, never leaves a range
    /// without interior.
    pub open spec fn hit_spec(x: Slab, y: Slab, z: Slab, ray_t: Interval) -> bool {
        let a = x.narrow_spec(ray_t);
        let b = y.narrow_spec(a);
        let c = z.narrow_spec(b);
        !closed_up(a) && !closed_up(b) && !closed_up(c)
    }

    /// The axis of greatest extent. Of equal extents X wins over Z and Y, and
    /// Z over Y.
    pub open spec fn longest_axis_spec(size_x: Scalar, size_y: Scalar, size_z: Scalar) -> Axis {
        if size_y.le_spec(size_x) && size_z.le_spec(size_x) {
            Axis::X
        } else if size_y.le_spec(size_z) {
            Axis::Z
        } else {
            Axis::Y
        }
    }

    /// A box over three ranges. No range of the box is flat: a range
    /// shorter than the least extent is widened to it.
    pub fn new<E, X>(x: Interval, y: Interval, z: Interval, extent: &E, expand: &X) -> (b: AABB) where
        E: Fn(&Interval) -> Scalar,
        X: Fn(&Interval) -> Interval,

        requires
            extent_callable(extent),
            expand_callable(expand),
        ensures
            extent_functional(extent) && expand_functional(expand) ==> b == AABB::new_spec(
                x,
                y,
                z,
                extent_fn(extent),
                expand_fn(expand),
            ),
            b.x == x || call_ensures(*expand, (&x,), b.x),
            b.y == y || call_ensures(*expand, (&y,), b.y),
            b.z == z || call_ensures(*expand, (&z,), b.z),
    {
        AABB {
            x: padded(x, extent, expand),
            y: padded(y, extent, expand),
            z: padded(z, extent, expand),
        }
    }

    pub fn empty() -> (b: AABB)
        ensures
            b == AABB::empty_spec(),
    {
        AABB { x: Interval::empty(), y: Interval::empty(), z: Interval::empty() }
    }

    pub fn universe() -> (b: AABB)
        ensures
            b == AABB::universe_spec(),
    {
        AABB { x: Interval::universe(), y: Interval::universe(), z: Interval::universe() }
    }

    /// Treats the two points as opposite corners of the box. No range of
    /// the box is flat.
    pub fn from_points<E, X>(a: Point3, b: Point3, extent: &E, expand: &X) -> (bx: AABB) where
        E: Fn(&Interval) -> Scalar,
        X: Fn(&Interval) -> Interval,

        requires
            extent_callable(extent),
            expand_callable(expand),
        ensures
            extent_functional(extent) && expand_functional(expand) ==> bx == AABB::new_spec(
                AABB::from_points_spec(a, b).x,
                AABB::from_points_spec(a, b).y,
                AABB::from_points_spec(a, b).z,
                extent_fn(extent),
                expand_fn(expand),
            ),
            bx.x == AABB::from_points_spec(a, b).x || call_ensures(
                *expand,
                (&AABB::from_points_spec(a, b).x,),
                bx.x,
            ),
            bx.y == AABB::from_points_spec(a, b).y || call_ensures(
                *expand,
                (&AABB::from_points_spec(a, b).y,),
                bx.y,
            ),
            bx.z == AABB::from_points_spec(a, b).z || call_ensures(
                *expand,
                (&AABB::from_points_spec(a, b).z,),
                bx.z,
            ),
    {
        let x = if a.0.le(&b.0) { Interval::new(a.0, b.0) } else { Interval::new(b.0, a.0) };
        let y = if a.1.le(&b.1) { Interval::new(a.1, b.1) } else { Interval::new(b.1, a.1) };
        let z = if a.2.le(&b.2) { Interval::new(a.2, b.2) } else { Interval::new(b.2, a.2) };
        AABB::new(x, y, z, extent, expand)
    }

    pub fn from_boxes(box0: &AABB, box1: &AABB) -> (b: AABB)
        ensures
            b == AABB::union_spec(*box0, *box1),
    {
        AABB {
            x: Interval::from_intervals(&box0.x, &box1.x),
            y: Interval::from_intervals(&box0.y, &box1.y),
            z: Interval::from_intervals(&box0.z, &box1.z),
        }
    }

    pub fn axis_interval(&self, axis: Axis) -> (iv: &Interval)
        ensures
            *iv == self.axis_spec(axis),
    {
        match axis {
            Axis::X => &self.x,
            Axis::Y => &self.y,
            Axis::Z => &self.z,
        }
    }

    /// The slab test, on the crossing parameters of the ray with the box's
    /// three pairs of planes.
    pub fn hit(x: Slab, y: Slab, z: Slab, ray_t: Interval) -> (b: bool)
        ensures
            b == AABB::hit_spec(x, y, z, ray_t),
    {
        let a = x.narrow(ray_t);
        if a.max.le(&a.min) {
            return false;
        }
        let b = y.narrow(a);
        if b.max.le(&b.min) {
            return false;
        }
        let c = z.narrow(b);
        !c.max.le(&c.min)
    }

    /// The axis along which the box is longest, from its three extents.
    pub fn longest_axis(size_x: Scalar, size_y: Scalar, size_z: Scalar) -> (axis: Axis)
        ensures
            axis == AABB::longest_axis_spec(size_x, size_y, size_z),
    {
        if size_x.ge(&size_y) && size_x.ge(&size_z) {
            Axis::X
        } else if size_z.ge(&size_y) {
            Axis::Z
        } else {
            Axis::Y
        }
    }
}

impl Default for AABB {
    fn default() -> (b: AABB)
        ensures
            b == AABB::empty_spec(),
    {
        AABB::empty()
    }
}

/// The empty box is the unit of the union, the union is taken axis by axis,
/// and it holds every point that either box holds.
pub proof fn lemma_box_union(a: AABB, b: AABB, p: Point3)
    ensures
        AABB::union_spec(AABB::empty_spec(), b) == b,
        forall|axis: Axis|
            AABB::union_spec(a, b).axis_spec(axis) == Interval::union_spec(
                a.axis_spec(axis),
                #[trigger] b.axis_spec(axis),
            ),
{
}

/// With numbers on every side, the slab test succeeds exactly if some range
/// with interior lies inside `ray_t` and inside all three slabs: the
/// greatest lower bound is below the least upper bound.
pub proof fn lemma_slab_test(x: Slab, y: Slab, z: Slab, ray_t: Interval, lo: Scalar, hi: Scalar)
    requires
        !x.t0.nan() && !x.t1.nan() && !y.t0.nan() && !y.t1.nan() && !z.t0.nan() && !z.t1.nan(),
        !ray_t.min.nan() && !ray_t.max.nan(),
        lo == z.narrow_spec(y.narrow_spec(x.narrow_spec(ray_t))).min,
        hi == z.narrow_spec(y.narrow_spec(x.narrow_spec(ray_t))).max,
    ensures
        AABB::hit_spec(x, y, z, ray_t) == lo.lt_spec(hi),
        ray_t.min.le_spec(lo),
        hi.le_spec(ray_t.max),
{
}

} // verus!
