//! A closed numeric range used to track the nearest valid hit distance along
//! a ray.  Intersection routines shrink `upper_bound` to the nearest accepted
//! hit, which is how "closest hit wins" is implemented.

use vstd::prelude::*;

verus! {

/// A closed fixed-point range `[lower_bound, upper_bound]`.
#[derive(Clone, Copy, Debug, PartialEq, Eq, Structural)]
pub struct Interval {
    pub lower_bound: i64,
    pub upper_bound: i64,
}

impl Interval {
    /// Inclusive containment, as the model states it.
    pub open spec fn contains_spec(self, t: int) -> bool {
        self.lower_bound <= t && t <= self.upper_bound
    }

    pub fn new(lower_bound: i64, upper_bound: i64) -> (r: Self)
        ensures
            r.lower_bound == lower_bound,
            r.upper_bound == upper_bound,
    {
        Self { lower_bound, upper_bound }
    }

    /// Inclusive on both bounds.
    pub fn contains(&self, t: i64) -> (r: bool)
        ensures
            r == self.contains_spec(t as int),
    {
        t >= self.lower_bound && t <= self.upper_bound
    }

    /// The width of the range; saturating, like every scalar operation.
    pub fn size(&self) -> (r: i64)
        ensures
            r as int == crate::scalar::q_sub_spec(self.upper_bound as int, self.lower_bound as int),
    {
        crate::scalar::q_sub(self.upper_bound, self.lower_bound)
    }

    /// Strict containment on both bounds.
    pub fn surrounds(&self, t: i64) -> (r: bool)
        ensures
            r == (self.lower_bound < t && t < self.upper_bound),
    {
        t > self.lower_bound && t < self.upper_bound
    }
}

} // verus!
