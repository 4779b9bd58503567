//! Triangles and polygons in the plane.
use crate::scalar::Scalar;
use crate::utils::real_ring::{
    lemma_divide_is_scale, lemma_product3, lemma_reciprocal, lemma_zero_one,
};
use crate::vectors::{lemma_dot2_linear, RealVec2, Vector2};
use vstd::prelude::*;

verus! {

/// A triangle of the real plane: the mathematical model of `Triangle`.
pub struct RealTriangle2 {
    pub a: RealVec2,
    pub b: RealVec2,
    pub c: RealVec2,
}

impl RealTriangle2 {
    /// The signed area: positive where `a`, `b`, `c` run counter-clockwise.
    pub open spec fn area(self) -> real {
        self.b.sub(self.a).cross(self.c.sub(self.b)) / 2real
    }

    /// The coordinate of `point` along the edge from `a` to `b`, by
    /// projection on that edge. Where the two edges at `a` are orthogonal,
    /// `u` and `v` are the coordinates of the point in the frame of the two
    /// edges; elsewhere they are the projections and no more.
    pub open spec fn u(self, point: RealVec2) -> real {
        self.b.sub(self.a).div(self.b.sub(self.a).norm_squared()).dot(point.sub(self.a))
    }

    /// The coordinate of `point` along the edge from `a` to `c`, by
    /// projection on that edge.
    pub open spec fn v(self, point: RealVec2) -> real {
        self.c.sub(self.a).div(self.c.sub(self.a).norm_squared()).dot(point.sub(self.a))
    }

    /// Whether one of the two edges at `a` has length zero.
    pub open spec fn degenerate(self) -> bool {
        self.b.sub(self.a).norm_squared() == 0real || self.c.sub(self.a).norm_squared() == 0real
    }

    /// Whether the two edges at `a` are orthogonal.
    pub open spec fn right_angled(self) -> bool {
        self.b.sub(self.a).dot(self.c.sub(self.a)) == 0real
    }

    /// The point with the coordinates `s` and `t` in the frame of the two
    /// edges at `a`: the points of the triangle are those with `s` and `t`
    /// not negative and `s + t` at most one.
    pub open spec fn point_at(self, s: real, t: real) -> RealVec2 {
        self.a.add(self.b.sub(self.a).scale(s)).add(self.c.sub(self.a).scale(t))
    }

    /// Whether the projections `u` and `v` of the point are not negative and
    /// sum to one at most. For a triangle with a right angle at `a` this says
    /// that the point is inside the triangle or on its boundary; for another
    /// triangle it is the rule of the projections, which is not membership.
    pub open spec fn point_intersects(self, point: RealVec2) -> bool {
        !self.degenerate() && self.u(point) >= 0real && self.v(point) >= 0real && self.u(point)
            + self.v(point) <= 1real
    }
}

/// The sum of the signed areas of the triangles `(p0, pi, pi+1)` for `1 <= i < upto`.
pub open spec fn fan_area(points: Seq<RealVec2>, upto: int) -> real
    decreases upto,
{
    if upto <= 1 {
        0real
    } else {
        fan_area(points, upto - 1) + (RealTriangle2 {
            a: points[0],
            b: points[upto - 1],
            c: points[upto],
        }).area()
    }
}

/// The area of a polygon by its fan of triangles from the first corner; it is
/// the enclosed area where the polygon is simple and runs counter-clockwise.
pub open spec fn polygon_area(points: Seq<RealVec2>) -> real {
    fan_area(points, points.len() - 1)
}

/// The corners of a polygon as real vectors.
pub open spec fn points_view(points: Seq<Vector2>) -> Seq<RealVec2> {
    points.map_values(|p: Vector2| p@)
}

/// The triangle with the corners `a`, `b`, `c`, in this order.
#[derive(Debug, PartialEq)]
pub struct Triangle {
    pub a: Vector2,
    pub b: Vector2,
    pub c: Vector2,
}

impl View for Triangle {
    type V = RealTriangle2;

    open spec fn view(&self) -> RealTriangle2 {
        RealTriangle2 { a: self.a@, b: self.b@, c: self.c@ }
    }
}

impl Clone for Triangle {
    fn clone(&self) -> (r: Self)
        ensures
            r@ == self@,
    {
        Triangle { a: self.a.clone(), b: self.b.clone(), c: self.c.clone() }
    }
}

impl Triangle {
    pub fn new(a: Vector2, b: Vector2, c: Vector2) -> (r: Triangle)
        ensures
            r@ == (RealTriangle2 { a: a@, b: b@, c: c@ }),
    {
        Triangle { a, b, c }
    }

    /// The signed area.
    pub fn area(&self) -> (r: Scalar)
        ensures
            r@ == self@.area(),
    {
        let two: Scalar = Scalar::from_int(2);
        self.b.sub(&self.a).cross(&self.c.sub(&self.b)).div(&two)
    }

    /// Whether the point is inside the triangle or on its boundary, by its
    /// projections on the two edges at `a`: exact for a triangle with a right
    /// angle at `a`.
    pub fn point_intersects(&self, pt: &Vector2) -> (r: bool)
        ensures
            r == self@.point_intersects(pt@),
    {
        let adj_pt: Vector2 = pt.sub(&self.a);
        let b_adj: Vector2 = self.b.sub(&self.a);
        let c_adj: Vector2 = self.c.sub(&self.a);
        let b_len: Scalar = b_adj.magnitude_squared();
        let c_len: Scalar = c_adj.magnitude_squared();
        if b_len.is_zero() || c_len.is_zero() {
            return false;
        }
        let u: Scalar = b_adj.div(&b_len).dot(&adj_pt);
        let v: Scalar = c_adj.div(&c_len).dot(&adj_pt);
        !u.is_negative() && !v.is_negative() && u.add(&v).at_most(&Scalar::one())
    }
}

/// A polygon, given by its corners in order. It is taken to be simple and to
/// run counter-clockwise; neither is checked.
#[derive(Debug, PartialEq)]
pub struct Polygon {
    points: Vec<Vector2>,
}

impl View for Polygon {
    type V = Seq<RealVec2>;

    closed spec fn view(&self) -> Seq<RealVec2> {
        points_view(self.points@)
    }
}

impl Clone for Polygon {
    fn clone(&self) -> (r: Self)
        ensures
            r@ == self@,
    {
        let mut points: Vec<Vector2> = Vec::new();
        let mut i: usize = 0;
        while i < self.points.len()
            invariant
                i <= self.points.len(),
                points@.len() == i,
                forall|k: int| 0 <= k < i ==> (#[trigger] points@[k])@ == self.points@[k]@,
            decreases self.points.len() - i,
        {
            points.push(self.points[i].clone());
            i = i + 1;
        }
        assert(points_view(points@) =~= points_view(self.points@));
        Polygon { points }
    }
}

impl Polygon {
    pub fn new(points: Vec<Vector2>) -> (r: Polygon)
        ensures
            r@ == points_view(points@),
    {
        Polygon { points }
    }

    /// The area enclosed by the polygon.
    pub fn area(&self) -> (r: Scalar)
        ensures
            r@ == polygon_area(self@),
    {
        let mut sum: Scalar = Scalar::zero();
        let n: usize = self.points.len();
        if n < 3 {
            return sum;
        }
        let mut i: usize = 1;
        while i < n - 1
            invariant
                1 <= i <= n - 1,
                n == self.points.len(),
                sum@ == fan_area(self@, i as int),
            decreases n - i,
        {
            let t: Triangle = Triangle::new(
                self.points[0].clone(),
                self.points[i].clone(),
                self.points[i + 1].clone(),
            );
            sum = sum.add(&t.area());
            i = i + 1;
        }
        sum
    }
}

/// What the answer on a point means for a triangle with a right angle at
/// `a`, neither edge there of length zero: the projections of the point with
/// the coordinates `s` and `t` in the frame of the two edges are `s` and `t`
/// themselves, and so the answer says whether the point is in the triangle.
pub proof fn lemma_point_intersects_meaning(tri: RealTriangle2, s: real, t: real)
    requires
        tri.right_angled(),
        !tri.degenerate(),
    ensures
        tri.u(tri.point_at(s, t)) == s,
        tri.v(tri.point_at(s, t)) == t,
        tri.point_intersects(tri.point_at(s, t)) == (s >= 0real && t >= 0real && s + t
            <= 1real),
{
    let p = tri.point_at(s, t);
    let ba = tri.b.sub(tri.a);
    let ca = tri.c.sub(tri.a);
    let oa = p.sub(tri.a);
    let nb = ba.norm_squared();
    let nc = ca.norm_squared();
    assert(oa == ba.scale(s).add(ca.scale(t)));
    lemma_divide_is_scale(ba.x, nb);
    lemma_divide_is_scale(ba.y, nb);
    assert(ba.div(nb) == ba.scale(1real / nb));
    lemma_dot2_linear(ba, oa, oa, 1real / nb);
    lemma_dot2_linear(ba, ba.scale(s), ca.scale(t), 0real);
    lemma_dot2_linear(ba, ba, ba, s);
    lemma_dot2_linear(ba, ca, ca, t);
    lemma_zero_one(t);
    lemma_reciprocal(nb);
    lemma_product3(nb, s, 1real / nb);
    lemma_zero_one(s);
    lemma_divide_is_scale(ca.x, nc);
    lemma_divide_is_scale(ca.y, nc);
    assert(ca.div(nc) == ca.scale(1real / nc));
    lemma_dot2_linear(ca, oa, oa, 1real / nc);
    lemma_dot2_linear(ca, ba.scale(s), ca.scale(t), 0real);
    lemma_dot2_linear(ca, ba, ba, s);
    lemma_dot2_linear(ca, ca, ca, t);
    lemma_reciprocal(nc);
    lemma_product3(nc, t, 1real / nc);
}

} // verus!
