//! Rays: a half-line in space, stamped with a time.
use vstd::prelude::*;
use crate::scalar::Scalar;
use crate::vec::{Point3, Vec3};

verus! {

/// An origin, a direction and the moment in `[0, 1]` at which the ray is cast.
#[derive(Clone, Copy, Debug)]
pub struct Ray {
    pub orig: Point3,
    pub dir: Vec3,
    pub tm: Scalar,
}

impl Ray {
    /// A ray cast at time 0.
    pub fn new(origin: Point3, direction: Vec3) -> (r: Ray)
        ensures
            r == (Ray { orig: origin, dir: direction, tm: Scalar::zero_spec() }),
    {
        Ray { orig: origin, dir: direction, tm: Scalar::zero() }
    }

    pub fn new_with_time(origin: Point3, direction: Vec3, time: Scalar) -> (r: Ray)
        ensures
            r == (Ray { orig: origin, dir: direction, tm: time }),
    {
        Ray { orig: origin, dir: direction, tm: time }
    }

    pub fn origin(&self) -> (p: &Point3)
        ensures
            *p == self.orig,
    {
        &self.orig
    }

    pub fn direction(&self) -> (d: &Vec3)
        ensures
            *d == self.dir,
    {
        &self.dir
    }

    pub fn time(&self) -> (t: Scalar)
        ensures
            t == self.tm,
    {
        self.tm
    }
}

} // verus!
