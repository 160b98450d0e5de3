//! Triples of numbers: points, directions and colours.
use vstd::prelude::*;
use crate::scalar::Scalar;

verus! {

/// One of the three coordinate axes.
#[derive(Clone, Copy, Debug, PartialEq, Eq, Structural)]
pub enum Axis {
    X,
    Y,
    Z,
}

/// Three numbers. The same type serves as point, direction and colour.
#[derive(Clone, Copy, Debug)]
pub struct Vec3(pub Scalar, pub Scalar, pub Scalar);

pub type Point3 = Vec3;

/// The bit pattern of the threshold below which a component counts as zero:
/// one hundred-millionth.
pub const NEAR_ZERO_BITS: u64 = 0x3E45_798E_E230_8C3A;

/// The bit pattern of the least squared length from which a random point is
/// normalised: ten to the power -160.
pub const TINY_BITS: u64 = 0x1EB6_7E9C_127B_6E74;

impl Vec3 {
    /// The vector with every sign flipped.
    pub open spec fn neg_spec(self) -> Vec3 {
        Vec3(self.0.neg_spec(), self.1.neg_spec(), self.2.neg_spec())
    }

    /// Every component is smaller in absolute value than the threshold.
    pub open spec fn near_zero_spec(self) -> bool {
        let s = Scalar { bits: NEAR_ZERO_BITS };
        self.0.abs_spec().lt_spec(s) && self.1.abs_spec().lt_spec(s) && self.2.abs_spec().lt_spec(s)
    }

    /// The component along an axis.
    pub open spec fn axis_spec(self, axis: Axis) -> Scalar {
        match axis {
            Axis::X => self.0,
            Axis::Y => self.1,
            Axis::Z => self.2,
        }
    }

    /// A point drawn from the cube is normalised to a unit vector if its
    /// squared length lies in `(1e-160, 1]`; any other point is drawn again.
    pub open spec fn accepts_unit_sample_spec(length_squared: Scalar) -> bool {
        (Scalar { bits: TINY_BITS }).lt_spec(length_squared) && length_squared.le_spec(
            Scalar::one_spec(),
        )
    }

    /// A point drawn from the square lies in the unit disk if its squared
    /// length is below 1.
    pub open spec fn in_unit_disk_spec(length_squared: Scalar) -> bool {
        length_squared.lt_spec(Scalar::one_spec())
    }

    /// The unit vector itself if it points to the side of the normal, that
    /// is if `facing`, its product with the normal, is positive; else its
    /// opposite.
    pub open spec fn on_hemisphere_spec(self, facing: Scalar) -> Vec3 {
        if Scalar::zero_spec().lt_spec(facing) {
            self
        } else {
            self.neg_spec()
        }
    }

    pub fn new(x: Scalar, y: Scalar, z: Scalar) -> (v: Vec3)
        ensures
            v == Vec3(x, y, z),
    {
        Vec3(x, y, z)
    }

    /// The origin, and the colour black.
    pub fn zero() -> (v: Vec3)
        ensures
            v == Vec3(Scalar::zero_spec(), Scalar::zero_spec(), Scalar::zero_spec()),
    {
        Vec3(Scalar::zero(), Scalar::zero(), Scalar::zero())
    }

    pub fn x(&self) -> (c: Scalar)
        ensures
            c == self.0,
    {
        self.0
    }

    pub fn y(&self) -> (c: Scalar)
        ensures
            c == self.1,
    {
        self.1
    }

    pub fn z(&self) -> (c: Scalar)
        ensures
            c == self.2,
    {
        self.2
    }

    pub fn axis(&self, axis: Axis) -> (c: Scalar)
        ensures
            c == self.axis_spec(axis),
    {
        match axis {
            Axis::X => self.0,
            Axis::Y => self.1,
            Axis::Z => self.2,
        }
    }

    pub fn near_zero(&self) -> (b: bool)
        ensures
            b == self.near_zero_spec(),
    {
        let s = Scalar::from_bits(NEAR_ZERO_BITS);
        self.0.abs().lt(&s) && self.1.abs().lt(&s) && self.2.abs().lt(&s)
    }

    /// Whether a random point of the cube is kept for a unit vector, by its
    /// squared length.
    pub fn accepts_unit_sample(length_squared: Scalar) -> (b: bool)
        ensures
            b == Vec3::accepts_unit_sample_spec(length_squared),
    {
        Scalar::from_bits(TINY_BITS).lt(&length_squared) && length_squared.le(&Scalar::one())
    }

    /// Whether a random point of the square is kept for the unit disk, by
    /// its squared length.
    pub fn in_unit_disk(length_squared: Scalar) -> (b: bool)
        ensures
            b == Vec3::in_unit_disk_spec(length_squared),
    {
        length_squared.lt(&Scalar::one())
    }

    /// Turns a random unit vector to the side of a normal.
    pub fn random_on_hemisphere(&self, facing: Scalar) -> (v: Vec3)
        ensures
            v == self.on_hemisphere_spec(facing),
    {
        if facing.gt(&Scalar::zero()) {
            *self
        } else {
            self.neg()
        }
    }

    pub fn neg(&self) -> (v: Vec3)
        ensures
            v == self.neg_spec(),
    {
        Vec3(self.0.neg(), self.1.neg(), self.2.neg())
    }
}

} // verus!
