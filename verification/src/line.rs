//! Lines and line segments.
use crate::scalar::Scalar;
use crate::vectors::{lemma_hat_length, RealVec3, Vector3};
use vstd::prelude::*;

verus! {

/// A line over the reals: the mathematical model of `Line`.
pub struct RealLine {
    pub origin: RealVec3,
    pub direction: RealVec3,
}

impl RealLine {
    /// The line through `origin` along `direction`, the direction divided by
    /// `magnitude`; a direction that is zero stays zero. With the length of
    /// the direction for `magnitude`, the direction kept has length one.
    pub open spec fn new(origin: RealVec3, direction: RealVec3, magnitude: real) -> RealLine {
        RealLine { origin: origin, direction: direction.hat(magnitude) }
    }

    /// The point reached from the origin after `t` times the direction.
    pub open spec fn at(self, t: real) -> RealVec3 {
        self.origin.add(self.direction.scale(t))
    }
}

/// A line segment over the reals: the mathematical model of `LineSegment`.
pub struct RealSegment {
    pub a: RealVec3,
    pub b: RealVec3,
}

impl RealSegment {
    /// The point at the fraction `t` of the way from `a` to `b`; the points of
    /// the segment are those with `t` from zero to one.
    pub open spec fn at(self, t: real) -> RealVec3 {
        self.a.add(self.b.sub(self.a).scale(t))
    }
}

/// A line through `origin` along `direction`. A line made by `new` keeps a
/// direction of length one.
#[derive(Debug, PartialEq)]
pub struct Line {
    pub origin: Vector3,
    pub direction: Vector3,
}

/// The segment between the points `a` and `b`.
#[derive(Debug, PartialEq)]
pub struct LineSegment {
    pub a: Vector3,
    pub b: Vector3,
}

impl View for Line {
    type V = RealLine;

    open spec fn view(&self) -> RealLine {
        RealLine { origin: self.origin@, direction: self.direction@ }
    }
}

impl View for LineSegment {
    type V = RealSegment;

    open spec fn view(&self) -> RealSegment {
        RealSegment { a: self.a@, b: self.b@ }
    }
}

impl Clone for Line {
    fn clone(&self) -> (r: Self)
        ensures
            r@ == self@,
    {
        Line { origin: self.origin.clone(), direction: self.direction.clone() }
    }
}

impl Clone for LineSegment {
    fn clone(&self) -> (r: Self)
        ensures
            r@ == self@,
    {
        LineSegment { a: self.a.clone(), b: self.b.clone() }
    }
}

impl Line {
    /// The line through `origin` along `direction`. The direction is kept
    /// with length one: it is divided by `magnitude`, its length, which the
    /// caller has computed. A direction that is zero stays zero.
    pub fn new(origin: Vector3, direction: Vector3, magnitude: &Scalar) -> (r: Line)
        requires
            direction@ != RealVec3::zero() ==> magnitude@ != 0real,
        ensures
            r@ == (RealLine { origin: origin@, direction: direction@.hat(magnitude@) }),
    {
        let unit: Vector3 = direction.hat(magnitude);
        Line { origin, direction: unit }
    }

    /// The point at parameter `t`.
    pub fn at(&self, t: &Scalar) -> (r: Vector3)
        ensures
            r@ == self@.at(t@),
    {
        self.origin.add(&self.direction.scale(t))
    }
}

impl LineSegment {
    pub fn new(a: Vector3, b: Vector3) -> (r: LineSegment)
        ensures
            r@ == (RealSegment { a: a@, b: b@ }),
    {
        LineSegment { a, b }
    }
}

/// A line made with the length of its direction has a direction of length
/// one, unless the direction is zero.
pub proof fn lemma_line_direction_unit(origin: RealVec3, direction: RealVec3, magnitude: real)
    requires
        direction.has_length(magnitude),
        direction != RealVec3::zero(),
    ensures
        RealLine::new(origin, direction, magnitude).direction.has_length(1real),
{
    lemma_hat_length(direction, magnitude);
}

} // verus!
