//! Closed ranges of numbers.
use vstd::prelude::*;
use crate::scalar::Scalar;

verus! {

/// The closed range `[min, max]`.
#[derive(Clone, Copy, Debug)]
pub struct Interval {
    pub min: Scalar,
    pub max: Scalar,
}

impl Interval {
    /// The range that holds no number: `[+inf, -inf]`.
    pub open spec fn empty_spec() -> Interval {
        Interval { min: Scalar::infinity_spec(), max: Scalar::neg_infinity_spec() }
    }

    /// The range that holds every number: `[-inf, +inf]`.
    pub open spec fn universe_spec() -> Interval {
        Interval { min: Scalar::neg_infinity_spec(), max: Scalar::infinity_spec() }
    }

    /// `min <= x <= max`.
    pub open spec fn contains_spec(self, x: Scalar) -> bool {
        self.min.le_spec(x) && x.le_spec(self.max)
    }

    /// `min < x < max`.
    pub open spec fn surrounds_spec(self, x: Scalar) -> bool {
        self.min.lt_spec(x) && x.lt_spec(self.max)
    }

    /// The bound that `x` lies beyond, or `x` itself.
    pub open spec fn clamp_spec(self, x: Scalar) -> Scalar {
        if x.lt_spec(self.min) {
            self.min
        } else if self.max.lt_spec(x) {
            self.max
        } else {
            x
        }
    }

    /// The smallest range that holds both: the lesser `min`, the greater `max`.
    pub open spec fn union_spec(a: Interval, b: Interval) -> Interval {
        Interval {
            min: if a.min.le_spec(b.min) { a.min } else { b.min },
            max: if b.max.le_spec(a.max) { a.max } else { b.max },
        }
    }

    /// The same range with another upper bound.
    pub open spec fn with_max(self, max: Scalar) -> Interval {
        Interval { min: self.min, max }
    }

    pub fn new(min: Scalar, max: Scalar) -> (iv: Interval)
        ensures
            iv.min == min,
            iv.max == max,
    {
        Interval { min, max }
    }

    pub fn empty() -> (iv: Interval)
        ensures
            iv == Interval::empty_spec(),
    {
        Interval { min: Scalar::infinity(), max: Scalar::neg_infinity() }
    }

    pub fn universe() -> (iv: Interval)
        ensures
            iv == Interval::universe_spec(),
    {
        Interval { min: Scalar::neg_infinity(), max: Scalar::infinity() }
    }

    pub fn from_intervals(a: &Interval, b: &Interval) -> (iv: Interval)
        ensures
            iv == Interval::union_spec(*a, *b),
    {
        let min = if a.min.le(&b.min) { a.min } else { b.min };
        let max = if a.max.ge(&b.max) { a.max } else { b.max };
        Interval { min, max }
    }

    pub fn contains(&self, x: Scalar) -> (b: bool)
        ensures
            b == self.contains_spec(x),
    {
        self.min.le(&x) && x.le(&self.max)
    }

    pub fn surrounds(&self, x: Scalar) -> (b: bool)
        ensures
            b == self.surrounds_spec(x),
    {
        self.min.lt(&x) && x.lt(&self.max)
    }

    pub fn clamp(&self, x: Scalar) -> (r: Scalar)
        ensures
            r == self.clamp_spec(x),
    {
        if x.lt(&self.min) {
            self.min
        } else if x.gt(&self.max) {
            self.max
        } else {
            x
        }
    }
}

impl Default for Interval {
    fn default() -> (iv: Interval)
        ensures
            iv == Interval::empty_spec(),
    {
        Interval::empty()
    }
}

/// The empty range is the unit of the union, and the union of two ranges
/// holds every number that either holds.
pub proof fn lemma_union(a: Interval, b: Interval, x: Scalar)
    ensures
        Interval::union_spec(Interval::empty_spec(), b) == b,
        a.contains_spec(x) && !b.min.nan() && !b.max.nan() ==> Interval::union_spec(
            a,
            b,
        ).contains_spec(x),
        b.contains_spec(x) && !a.min.nan() && !a.max.nan() ==> Interval::union_spec(
            a,
            b,
        ).contains_spec(x),
{
}

/// A clamped number lies in the range, provided the range is not inverted,
/// and a number in the range is left as it is.
pub proof fn lemma_clamp(iv: Interval, x: Scalar)
    ensures
        iv.min.le_spec(iv.max) && !x.nan() ==> iv.contains_spec(iv.clamp_spec(x)),
        iv.contains_spec(x) ==> iv.clamp_spec(x) == x,
        x.nan() ==> iv.clamp_spec(x) == x,
{
}

} // verus!
