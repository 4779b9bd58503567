//! Triangles in space.
use crate::ray::{Ray, RealRay};
use crate::scalar::Scalar;
use crate::simple_plane::{Intersection, RealIntersection, RealPlane, SimplePlane};
use crate::utils::real_ring::{lemma_commute, lemma_multiply_divide, lemma_zero_one};
use crate::vectors::{
    lemma_cross_orthogonal, lemma_cross_subtracts, lemma_div_is_scale, lemma_dot_adds,
    lemma_dot_commutes, lemma_dot_scales, RealVec3, Vector3,
};
use vstd::prelude::*;

verus! {

/// A triangle over the reals: the mathematical model of `SimpleTriangle`.
pub struct RealTriangle {
    pub a: RealVec3,
    pub b: RealVec3,
    pub c: RealVec3,
}

impl RealTriangle {
    /// Half the cross product of two edges: it is orthogonal to the triangle,
    /// points to the side from which `a`, `b`, `c` run counter-clockwise, and
    /// its length is the triangle's area.
    pub open spec fn normal(self) -> RealVec3 {
        self.b.sub(self.a).cross(self.c.sub(self.b)).div(2real)
    }

    /// The mean of the three corners.
    pub open spec fn center(self) -> RealVec3 {
        self.a.add(self.b).add(self.c).div(3real)
    }

    pub open spec fn normal_ray(self) -> RealRay {
        RealRay { origin: self.center(), direction: self.normal() }
    }

    /// The square of the area.
    pub open spec fn area_squared(self) -> real {
        self.normal().norm_squared()
    }

    /// The plane that the triangle lies in.
    pub open spec fn plane(self) -> RealPlane {
        RealPlane { origin: self.a, normal: self.normal() }
    }

    /// The coordinate of `point` along the edge from `a` to `b`, by
    /// projection on that edge. Where the two edges at `a` are orthogonal,
    /// `u` and `v` are the coordinates of the point in the frame of the two
    /// edges; elsewhere they are the projections and no more.
    pub open spec fn u(self, point: RealVec3) -> real {
        point.sub(self.a).dot(self.b.sub(self.a)) / self.b.sub(self.a).norm_squared()
    }

    /// The coordinate of `point` along the edge from `a` to `c`, by
    /// projection on that edge.
    pub open spec fn v(self, point: RealVec3) -> real {
        point.sub(self.a).dot(self.c.sub(self.a)) / self.c.sub(self.a).norm_squared()
    }

    /// Whether the two edges at `a` are orthogonal.
    pub open spec fn right_angled(self) -> bool {
        self.b.sub(self.a).dot(self.c.sub(self.a)) == 0real
    }

    /// The point with the coordinates `s` and `t` in the frame of the two
    /// edges at `a`: the points of the triangle are those with `s` and `t`
    /// not negative and `s + t` at most one.
    pub open spec fn point_at(self, s: real, t: real) -> RealVec3 {
        self.a.add(self.b.sub(self.a).scale(s)).add(self.c.sub(self.a).scale(t))
    }

    /// Whether one of the two edges at `a` has length zero, so that the
    /// coordinates along them do not exist.
    pub open spec fn degenerate(self) -> bool {
        self.b.sub(self.a).norm_squared() == 0real || self.c.sub(self.a).norm_squared() == 0real
    }

    /// Where a point stands to the triangle, judged by its projections `u`
    /// and `v` on the two edges at `a`: inside (`Once`) where both are
    /// positive and their sum is under one, on the boundary (`Edge`) where one
    /// is zero or the sum is one, outside (`Never`) elsewhere and for every
    /// point off the plane of the triangle. For a triangle with a right angle
    /// at `a` this is membership in the triangle; for another triangle it is
    /// the rule of the projections, which is not membership.
    pub open spec fn point_intersects(self, point: RealVec3) -> RealIntersection {
        let u = self.u(point);
        let v = self.v(point);
        if point.sub(self.a).dot(self.normal()) != 0real || self.degenerate() {
            RealIntersection::Never
        } else if u >= 0real && v >= 0real && u + v <= 1real {
            if u == 0real || v == 0real || u + v == 1real {
                RealIntersection::Edge(point)
            } else {
                RealIntersection::Once(point)
            }
        } else {
            RealIntersection::Never
        }
    }

    /// How a ray meets the triangle: where it meets the triangle's plane in
    /// one point, that point is judged by `point_intersects`.
    pub open spec fn ray_intersects(self, ray: RealRay) -> RealIntersection {
        match self.plane().ray_intersects(ray) {
            RealIntersection::Once(point) => self.point_intersects(point),
            other => other,
        }
    }
}

/// The triangle with the corners `a`, `b`, `c`, in this order.
#[derive(Debug, PartialEq)]
pub struct SimpleTriangle {
    pub a: Vector3,
    pub b: Vector3,
    pub c: Vector3,
}

impl View for SimpleTriangle {
    type V = RealTriangle;

    open spec fn view(&self) -> RealTriangle {
        RealTriangle { a: self.a@, b: self.b@, c: self.c@ }
    }
}

impl Clone for SimpleTriangle {
    fn clone(&self) -> (r: Self)
        ensures
            r@ == self@,
    {
        SimpleTriangle { a: self.a.clone(), b: self.b.clone(), c: self.c.clone() }
    }
}

impl SimpleTriangle {
    pub fn new(a: Vector3, b: Vector3, c: Vector3) -> (r: SimpleTriangle)
        ensures
            r@ == (RealTriangle { a: a@, b: b@, c: c@ }),
    {
        SimpleTriangle { a, b, c }
    }

    /// The normal of the triangle, as long as the triangle's area.
    pub fn normal(&self) -> (r: Vector3)
        ensures
            r@ == self@.normal(),
    {
        let two: Scalar = Scalar::from_int(2);
        self.b.sub(&self.a).cross(&self.c.sub(&self.b)).div(&two)
    }

    pub fn center(&self) -> (r: Vector3)
        ensures
            r@ == self@.center(),
    {
        let three: Scalar = Scalar::from_int(3);
        self.a.add(&self.b).add(&self.c).div(&three)
    }

    /// The ray from the center along the normal.
    pub fn normal_ray(&self) -> (r: Ray)
        ensures
            r@ == self@.normal_ray(),
    {
        Ray::new(self.center(), self.normal())
    }

    /// The square of the area: the area is the length of the normal.
    pub fn area_squared(&self) -> (r: Scalar)
        ensures
            r@ == self@.area_squared(),
    {
        self.normal().magnitude_squared()
    }

    /// Tells where a point stands to the triangle, by its projections on the
    /// two edges at `a`: exact for a triangle with a right angle at `a`.
    pub fn point_intersects(&self, other: &Vector3) -> (r: Intersection)
        ensures
            r@ == self@.point_intersects(other@),
    {
        let other_adj: Vector3 = other.sub(&self.a);
        let b_adj: Vector3 = self.b.sub(&self.a);
        let c_adj: Vector3 = self.c.sub(&self.a);
        let b_len: Scalar = b_adj.magnitude_squared();
        let c_len: Scalar = c_adj.magnitude_squared();
        if !other_adj.dot(&self.normal()).is_zero() || b_len.is_zero() || c_len.is_zero() {
            return Intersection::Never;
        }
        let u: Scalar = other_adj.dot(&b_adj).div(&b_len);
        let v: Scalar = other_adj.dot(&c_adj).div(&c_len);
        let sum: Scalar = u.add(&v);
        let one: Scalar = Scalar::one();
        if !u.is_negative() && !v.is_negative() && sum.at_most(&one) {
            if u.is_zero() || v.is_zero() || sum.equals(&one) {
                Intersection::Edge(other.clone())
            } else {
                Intersection::Once(other.clone())
            }
        } else {
            Intersection::Never
        }
    }

    /// The plane that the triangle lies in, with the normal of the triangle
    /// for its normal, as long as the triangle's area.
    fn plane(&self) -> (r: SimplePlane)
        ensures
            r@ == self@.plane(),
    {
        SimplePlane { origin: self.a.clone(), normal: self.normal() }
    }

    /// Tells whether and where a ray meets the triangle.
    pub fn ray_intersects(&self, other: &Ray) -> (r: Intersection)
        ensures
            r@ == self@.ray_intersects(other@),
    {
        let plane: SimplePlane = self.plane();
        match plane.ray_intersects(other) {
            Intersection::Once(point) => self.point_intersects(&point),
            Intersection::Edge(point) => Intersection::Edge(point),
            Intersection::LiesOn => Intersection::LiesOn,
            Intersection::Never => Intersection::Never,
        }
    }
}

/// What the answer on a point means for a triangle with a right angle at
/// `a`, neither edge there of length zero: the point with the coordinates
/// `s` and `t` in the frame of the two edges lies in the plane of the
/// triangle, its projections are `s` and `t` themselves, and so the answer is
/// `Once` inside the triangle, `Edge` on its boundary and `Never` outside.
pub proof fn lemma_point_intersects_meaning(tri: RealTriangle, s: real, t: real)
    requires
        tri.right_angled(),
        !tri.degenerate(),
    ensures
        ({
            let p = tri.point_at(s, t);
            &&& tri.plane().contains(p)
            &&& tri.u(p) == s
            &&& tri.v(p) == t
            &&& tri.point_intersects(p) == if s >= 0real && t >= 0real && s + t <= 1real {
                if s == 0real || t == 0real || s + t == 1real {
                    RealIntersection::Edge(p)
                } else {
                    RealIntersection::Once(p)
                }
            } else {
                RealIntersection::Never
            }
        }),
{
    let p = tri.point_at(s, t);
    let ba = tri.b.sub(tri.a);
    let ca = tri.c.sub(tri.a);
    let oa = p.sub(tri.a);
    assert(oa == ba.scale(s).add(ca.scale(t)));
    // the projections
    lemma_dot_commutes(oa, ba);
    lemma_dot_adds(ba, ba.scale(s), ca.scale(t));
    lemma_dot_scales(ba, ba, s);
    lemma_dot_scales(ba, ca, t);
    lemma_zero_one(t);
    lemma_commute(ba.norm_squared(), s);
    lemma_multiply_divide(s, ba.norm_squared());
    lemma_dot_commutes(oa, ca);
    lemma_dot_adds(ca, ba.scale(s), ca.scale(t));
    lemma_dot_scales(ca, ba, s);
    lemma_dot_scales(ca, ca, t);
    lemma_dot_commutes(ca, ba);
    lemma_zero_one(s);
    lemma_commute(ca.norm_squared(), t);
    lemma_multiply_divide(t, ca.norm_squared());
    // the plane
    let across = ba.cross(ca);
    assert(tri.c.sub(tri.b) == ca.sub(ba));
    lemma_cross_subtracts(ba, ca, ba);
    assert(ba.cross(tri.c.sub(tri.b)) == across);
    lemma_cross_orthogonal(ba, ca);
    lemma_dot_commutes(across, ba);
    lemma_dot_commutes(across, ca);
    lemma_dot_adds(across, ba.scale(s), ca.scale(t));
    lemma_dot_scales(across, ba, s);
    lemma_dot_scales(across, ca, t);
    lemma_dot_commutes(oa, across);
    assert(oa.dot(across) == 0real);
    lemma_div_is_scale(across, 2real);
    lemma_dot_scales(oa, across, 1real / 2real);
    lemma_zero_one(1real / 2real);
    assert(oa.dot(tri.normal()) == 0real);
    // the same for the offset the plane takes: the origin less the point
    assert(tri.a.sub(p) == oa.scale(-1real)) by {
        assert(oa.x * (-1real) == -oa.x) by (nonlinear_arith);
        assert(oa.y * (-1real) == -oa.y) by (nonlinear_arith);
        assert(oa.z * (-1real) == -oa.z) by (nonlinear_arith);
    }
    lemma_dot_scales(tri.normal(), oa, -1real);
    lemma_dot_commutes(tri.normal(), oa);
    lemma_zero_one(-1real);
}

} // verus!
