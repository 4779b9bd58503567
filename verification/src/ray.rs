//! Rays: a point and a direction.
use crate::vectors::{RealVec3, Vector3};
use vstd::prelude::*;

verus! {

/// A ray over the reals: the mathematical model of `Ray`.
pub struct RealRay {
    pub origin: RealVec3,
    pub direction: RealVec3,
}

impl RealRay {
    /// The point reached from the origin after `t` times the direction.
    pub open spec fn at(self, t: real) -> RealVec3 {
        self.origin.add(self.direction.scale(t))
    }

    /// `1` where the ray points away from `point`, `-1` where it points towards
    /// it, `0` where it does neither.
    pub open spec fn points_away(self, point: RealVec3) -> int {
        let along = point.sub(self.origin).dot(self.direction);
        if along == 0real {
            0
        } else if along > 0real {
            -1
        } else {
            1
        }
    }
}

/// A ray: it starts at `origin` and runs along `direction`, which need not be of length one.
#[derive(Debug, PartialEq)]
pub struct Ray {
    pub origin: Vector3,
    pub direction: Vector3,
}

impl View for Ray {
    type V = RealRay;

    open spec fn view(&self) -> RealRay {
        RealRay { origin: self.origin@, direction: self.direction@ }
    }
}

impl Clone for Ray {
    fn clone(&self) -> (r: Self)
        ensures
            r@ == self@,
    {
        Ray { origin: self.origin.clone(), direction: self.direction.clone() }
    }
}

impl Ray {
    pub fn new(origin: Vector3, direction: Vector3) -> (r: Ray)
        ensures
            r@ == (RealRay { origin: origin@, direction: direction@ }),
    {
        Ray { origin, direction }
    }

    /// Tells whether the ray points towards a point or away from it.
    pub fn points_away(&self, point: &Vector3) -> (r: i8)
        ensures
            r == self@.points_away(point@),
    {
        let along = point.sub(&self.origin).dot(&self.direction);
        if along.is_zero() {
            0
        } else if along.is_positive() {
            -1
        } else {
            1
        }
    }
}

} // verus!
