//! A ray: an origin and a direction, with point-at-parameter evaluation.

use vstd::prelude::*;
use crate::vector::Vec3;

verus! {

#[derive(Clone, Copy, Debug, PartialEq, Eq, Structural)]
pub struct Ray {
    pub origin: Vec3,
    pub direction: Vec3,
}

impl Ray {
    pub open spec fn wf(self) -> bool {
        self.origin.wf() && self.direction.wf()
    }

    /// The point reached after traveling `t` along the direction.
    pub open spec fn at_spec(self, t: int) -> Vec3 {
        self.origin.add_spec(self.direction.scaled_spec(t))
    }

    pub fn new(origin: Vec3, direction: Vec3) -> (r: Self)
        ensures
            r.origin == origin,
            r.direction == direction,
    {
        Self { origin, direction }
    }

    /// Pure evaluation: `origin + t * direction`.
    pub fn at(&self, t: i64) -> (p: Vec3)
        requires
            self.wf(),
        ensures
            p == self.at_spec(t as int),
            p.wf(),
    {
        self.origin.add(self.direction.scaled(t))
    }
}

} // verus!
