//! Planes, and how points, rays, lines and segments meet them.
use crate::line::{Line, LineSegment, RealLine, RealSegment};
use crate::ray::{Ray, RealRay};
use crate::scalar::Scalar;
use crate::utils::matrix::{lemma_inverse_solves, Matrix3, RealMat3};
use crate::utils::real_ring::{
    lemma_cancel_common_factor, lemma_commute, lemma_distribute2, lemma_distribute_signed,
    lemma_divide_is_scale, lemma_divide_multiply, lemma_linear_root, lemma_product3,
    lemma_reciprocal, lemma_square, lemma_square_of_sum, lemma_zero_one,
};
use crate::vectors::{lemma_dot_adds, lemma_dot_scales, lemma_hat_length, RealVec3, Vector3};
use vstd::prelude::*;
use vstd::std_specs::cmp::PartialEqSpecImpl;

verus! {

/// How a line, a ray or a segment meets a plane or a triangle, over the reals:
/// the mathematical model of `Intersection`.
pub enum RealIntersection {
    Once(RealVec3),
    Edge(RealVec3),
    LiesOn,
    Never,
}

/// How a line, a ray or a segment meets a plane or a triangle.
#[derive(Debug)]
pub enum Intersection {
    /// They meet in the one point given.
    Once(Vector3),
    /// They meet in the one point given, which lies on the boundary.
    Edge(Vector3),
    /// The whole line or ray lies in the plane.
    LiesOn,
    /// They do not meet.
    Never,
}

impl View for Intersection {
    type V = RealIntersection;

    open spec fn view(&self) -> RealIntersection {
        match self {
            Intersection::Once(p) => RealIntersection::Once(p@),
            Intersection::Edge(p) => RealIntersection::Edge(p@),
            Intersection::LiesOn => RealIntersection::LiesOn,
            Intersection::Never => RealIntersection::Never,
        }
    }
}

impl Clone for Intersection {
    fn clone(&self) -> (r: Self)
        ensures
            r@ == self@,
    {
        match self {
            Intersection::Once(p) => Intersection::Once(p.clone()),
            Intersection::Edge(p) => Intersection::Edge(p.clone()),
            Intersection::LiesOn => Intersection::LiesOn,
            Intersection::Never => Intersection::Never,
        }
    }
}

impl RealIntersection {
    /// Equality of outcomes: the same kind, and points equal up to the tolerance.
    pub open spec fn close_to(self, rhs: RealIntersection) -> bool {
        match (self, rhs) {
            (RealIntersection::Once(p), RealIntersection::Once(q)) => p.close_to(q),
            (RealIntersection::Edge(p), RealIntersection::Edge(q)) => p.close_to(q),
            (RealIntersection::LiesOn, RealIntersection::LiesOn) => true,
            (RealIntersection::Never, RealIntersection::Never) => true,
            _ => false,
        }
    }
}

impl PartialEq for Intersection {
    /// Two outcomes are equal when they are of the same kind and their points are equal.
    fn eq(&self, other: &Self) -> (r: bool) {
        match (self, other) {
            (Intersection::Once(p), Intersection::Once(q)) => p.eq(q),
            (Intersection::Edge(p), Intersection::Edge(q)) => p.eq(q),
            (Intersection::LiesOn, Intersection::LiesOn) => true,
            (Intersection::Never, Intersection::Never) => true,
            _ => false,
        }
    }
}

impl PartialEqSpecImpl for Intersection {
    open spec fn obeys_eq_spec() -> bool {
        true
    }

    open spec fn eq_spec(&self, other: &Self) -> bool {
        self@.close_to(other@)
    }
}

/// A plane over the reals: the mathematical model of `SimplePlane`.
pub struct RealPlane {
    pub origin: RealVec3,
    pub normal: RealVec3,
}

impl RealPlane {
    /// The plane through `origin` that is orthogonal to `normal`, the normal
    /// divided by `magnitude`; a normal that is zero stays zero. With the
    /// length of the normal for `magnitude`, the normal kept has length one.
    pub open spec fn new(origin: RealVec3, normal: RealVec3, magnitude: real) -> RealPlane {
        RealPlane { origin: origin, normal: normal.hat(magnitude) }
    }

    /// A normal of the plane `z = mx x + my y + c`: the vector `(mx, my, -1)`.
    pub open spec fn mxb_normal(mx: real, my: real) -> RealVec3 {
        RealVec3 { x: mx, y: my, z: -1real }
    }

    /// The plane `z = mx x + my y + c`, its normal `(mx, my, -1)` divided by
    /// `magnitude`.
    pub open spec fn from_mxb(mx: real, my: real, c: real, magnitude: real) -> RealPlane {
        RealPlane::new(
            RealVec3 { x: 0real, y: 0real, z: c },
            RealPlane::mxb_normal(mx, my),
            magnitude,
        )
    }

    /// Whether the point lies in the plane.
    pub open spec fn contains(self, point: RealVec3) -> bool {
        self.normal.dot(self.origin.sub(point)) == 0real
    }

    /// The parameter `t` at which `origin + t direction` lies in the plane,
    /// where the direction is not parallel to the plane.
    pub open spec fn hit_parameter(self, origin: RealVec3, direction: RealVec3) -> real {
        -self.normal.dot(origin.sub(self.origin)) / self.normal.dot(direction)
    }

    /// The point `origin + t direction` for `t = hit_parameter(origin, direction)`.
    pub open spec fn hit_point(self, origin: RealVec3, direction: RealVec3) -> RealVec3 {
        origin.sub(self.origin).add(
            direction.scale(self.hit_parameter(origin, direction)),
        ).add(self.origin)
    }

    /// How a line through `origin` along `direction` stands to the plane where
    /// it is parallel to it: in it, or beside it.
    pub open spec fn parallel_case(self, origin: RealVec3) -> RealIntersection {
        if self.normal.dot(origin.sub(self.origin)) == 0real {
            RealIntersection::LiesOn
        } else {
            RealIntersection::Never
        }
    }

    pub open spec fn line_intersects(self, line: RealLine) -> RealIntersection {
        if self.normal.dot(line.direction) == 0real {
            self.parallel_case(line.origin)
        } else {
            RealIntersection::Once(self.hit_point(line.origin, line.direction))
        }
    }

    pub open spec fn ray_intersects(self, ray: RealRay) -> RealIntersection {
        if self.normal.dot(ray.direction) == 0real {
            self.parallel_case(ray.origin)
        } else if self.hit_parameter(ray.origin, ray.direction) < 0real {
            RealIntersection::Never
        } else {
            RealIntersection::Once(self.hit_point(ray.origin, ray.direction))
        }
    }

    pub open spec fn segment_intersects(self, segment: RealSegment) -> RealIntersection {
        let direction = segment.b.sub(segment.a);
        let t = self.hit_parameter(segment.a, direction);
        if self.normal.dot(direction) == 0real {
            self.parallel_case(segment.a)
        } else if 0real < t < 1real {
            RealIntersection::Once(self.hit_point(segment.a, direction))
        } else if t == 0real || t == 1real {
            RealIntersection::Edge(self.hit_point(segment.a, direction))
        } else {
            RealIntersection::Never
        }
    }
}

/// The sums over a set of points that a least-squares fit of a plane needs.
pub struct RealMoments {
    pub n: real,
    pub x: real,
    pub y: real,
    pub z: real,
    pub xx: real,
    pub yy: real,
    pub xy: real,
    pub xz: real,
    pub yz: real,
}

impl RealMoments {
    pub open spec fn zero() -> RealMoments {
        RealMoments {
            n: 0real,
            x: 0real,
            y: 0real,
            z: 0real,
            xx: 0real,
            yy: 0real,
            xy: 0real,
            xz: 0real,
            yz: 0real,
        }
    }

    /// The sums with the point `p` added.
    pub open spec fn with(self, p: RealVec3) -> RealMoments {
        RealMoments {
            n: self.n + 1real,
            x: self.x + p.x,
            y: self.y + p.y,
            z: self.z + p.z,
            xx: self.xx + p.x * p.x,
            yy: self.yy + p.y * p.y,
            xy: self.xy + p.x * p.y,
            xz: self.xz + p.x * p.z,
            yz: self.yz + p.y * p.z,
        }
    }

    /// The sums over the first `upto` points.
    pub open spec fn of(points: Seq<RealVec3>, upto: int) -> RealMoments
        decreases upto,
    {
        if upto <= 0 {
            RealMoments::zero()
        } else {
            RealMoments::of(points, upto - 1).with(points[upto - 1])
        }
    }

    /// The matrix of the normal equations of the fit `z = mx x + my y + c`.
    pub open spec fn matrix(self) -> RealMat3 {
        RealMat3 {
            m00: self.xx,
            m01: self.xy,
            m02: self.x,
            m10: self.xy,
            m11: self.yy,
            m12: self.y,
            m20: self.x,
            m21: self.y,
            m22: self.n,
        }
    }

    /// The right-hand side of the normal equations.
    pub open spec fn target(self) -> RealVec3 {
        RealVec3 { x: self.xz, y: self.yz, z: self.z }
    }

    /// The solution `(mx, my, c)` of the normal equations, where their matrix
    /// has an inverse.
    pub open spec fn solution(self) -> RealVec3 {
        self.matrix().inverse().apply(self.target())
    }
}

/// What the plane `z = mx x + my y + c` leaves, along z, between itself and
/// the point `p`, for the parameters `(mx, my, c)`.
pub open spec fn miss(p: RealVec3, params: RealVec3) -> real {
    p.x * params.x + p.y * params.y + params.z - p.z
}

/// The sum, over the first `upto` points, of the squares of the distances
/// along z between the point and the plane `z = mx x + my y + c`, where
/// `params` is `(mx, my, c)`.
pub open spec fn squared_error(points: Seq<RealVec3>, params: RealVec3, upto: int) -> real
    decreases upto,
{
    if upto <= 0 {
        0real
    } else {
        let left = miss(points[upto - 1], params);
        squared_error(points, params, upto - 1) + left * left
    }
}

/// The outcome of a fit over the reals: the mathematical model of `PlaneFit`.
pub struct RealPlaneFit {
    pub mx: real,
    pub my: real,
    pub c: real,
    pub square_error: real,
}

impl RealPlaneFit {
    /// The least-squares fit of the points, where the matrix of their normal
    /// equations has an inverse.
    pub open spec fn of(points: Seq<RealVec3>) -> RealPlaneFit {
        let params = RealMoments::of(points, points.len() as int).solution();
        RealPlaneFit {
            mx: params.x,
            my: params.y,
            c: params.z,
            square_error: squared_error(points, params, points.len() as int),
        }
    }

    /// The vector `(mx, my, -1)`, a normal of the fitted plane.
    pub open spec fn normal(self) -> RealVec3 {
        RealPlane::mxb_normal(self.mx, self.my)
    }

    /// The fitted plane, its normal divided by `magnitude`.
    pub open spec fn plane(self, magnitude: real) -> RealPlane {
        RealPlane::from_mxb(self.mx, self.my, self.c, magnitude)
    }
}

/// The points as real vectors.
pub open spec fn cloud_view(points: Seq<Vector3>) -> Seq<RealVec3> {
    points.map_values(|p: Vector3| p@)
}

/// The outcome of a least-squares fit: the parameters of the plane
/// `z = mx x + my y + c`, and the sum of the squares of the distances along z
/// that the plane leaves between itself and the points.
#[derive(Debug, PartialEq)]
pub struct PlaneFit {
    pub mx: Scalar,
    pub my: Scalar,
    pub c: Scalar,
    pub square_error: Scalar,
}

impl View for PlaneFit {
    type V = RealPlaneFit;

    open spec fn view(&self) -> RealPlaneFit {
        RealPlaneFit {
            mx: self.mx@,
            my: self.my@,
            c: self.c@,
            square_error: self.square_error@,
        }
    }
}

impl Clone for PlaneFit {
    fn clone(&self) -> (r: Self)
        ensures
            r@ == self@,
    {
        PlaneFit {
            mx: self.mx.clone(),
            my: self.my.clone(),
            c: self.c.clone(),
            square_error: self.square_error.clone(),
        }
    }
}

impl PlaneFit {
    /// The vector `(mx, my, -1)`, a normal of the fitted plane: `plane` asks
    /// for its length.
    pub fn normal(&self) -> (r: Vector3)
        ensures
            r@ == self@.normal(),
    {
        SimplePlane::mxb_normal(&self.mx, &self.my)
    }

    /// The fitted plane. `magnitude` is the length of `normal`, which the
    /// caller has computed.
    pub fn plane(&self, magnitude: &Scalar) -> (r: SimplePlane)
        requires
            magnitude@ != 0real,
        ensures
            r@ == self@.plane(magnitude@),
    {
        SimplePlane::from_mxb(self.mx.clone(), self.my.clone(), self.c.clone(), magnitude)
    }
}

/// The plane through `origin` that is orthogonal to `normal`. A plane made by
/// `new` keeps a normal of length one.
#[derive(Debug, PartialEq)]
pub struct SimplePlane {
    pub origin: Vector3,
    pub normal: Vector3,
}

impl View for SimplePlane {
    type V = RealPlane;

    open spec fn view(&self) -> RealPlane {
        RealPlane { origin: self.origin@, normal: self.normal@ }
    }
}

impl Clone for SimplePlane {
    fn clone(&self) -> (r: Self)
        ensures
            r@ == self@,
    {
        SimplePlane { origin: self.origin.clone(), normal: self.normal.clone() }
    }
}

impl SimplePlane {
    /// The plane through `origin` that is orthogonal to `normal`. The normal
    /// is kept with length one: it is divided by `magnitude`, its length,
    /// which the caller has computed. A normal that is zero stays zero.
    pub fn new(origin: Vector3, normal: Vector3, magnitude: &Scalar) -> (r: SimplePlane)
        requires
            normal@ != RealVec3::zero() ==> magnitude@ != 0real,
        ensures
            r@ == (RealPlane { origin: origin@, normal: normal@.hat(magnitude@) }),
    {
        let unit: Vector3 = normal.hat(magnitude);
        SimplePlane { origin, normal: unit }
    }

    /// The vector `(mx, my, -1)`, a normal of the plane `z = mx x + my y + c`:
    /// `from_mxb` asks for its length.
    pub fn mxb_normal(mx: &Scalar, my: &Scalar) -> (r: Vector3)
        ensures
            r@ == RealPlane::mxb_normal(mx@, my@),
    {
        Vector3::new(mx.clone(), my.clone(), Scalar::from_int(-1))
    }

    /// The plane `z = mx x + my y + c`. Its normal is `(mx, my, -1)`, kept
    /// with length one: `magnitude` is the length of that vector, which the
    /// caller has computed.
    pub fn from_mxb(mx: Scalar, my: Scalar, c: Scalar, magnitude: &Scalar) -> (r: SimplePlane)
        requires
            magnitude@ != 0real,
        ensures
            r@ == RealPlane::from_mxb(mx@, my@, c@, magnitude@),
    {
        SimplePlane::new(
            Vector3::new(Scalar::zero(), Scalar::zero(), c),
            Vector3::new(mx, my, Scalar::from_int(-1)),
            magnitude,
        )
    }

    /// The plane `z = mx x + my y + c` that fits the points best in the sense
    /// of least squares, by its three parameters, and the sum of the squares
    /// of what it leaves over; or nothing where the points do not determine
    /// such a plane, because the matrix of the normal equations has no
    /// inverse. The fit gives the parameters, not yet a plane: a plane keeps a
    /// normal of length one, and the length of `(mx, my, -1)` is for the
    /// caller to compute and to hand to `PlaneFit::plane`.
    pub fn regress(points: &Vec<Vector3>) -> (r: Option<PlaneFit>)
        ensures
            r is None <==> RealMoments::of(
                cloud_view(points@),
                points@.len() as int,
            ).matrix().determinant() == 0real,
            r is Some ==> r->Some_0@ == RealPlaneFit::of(cloud_view(points@)),
    {
        let ghost cloud = cloud_view(points@);
        let mut n: Scalar = Scalar::zero();
        let mut sum_x: Scalar = Scalar::zero();
        let mut sum_y: Scalar = Scalar::zero();
        let mut sum_z: Scalar = Scalar::zero();
        let mut sum_xy: Scalar = Scalar::zero();
        let mut sum_xz: Scalar = Scalar::zero();
        let mut sum_yz: Scalar = Scalar::zero();
        let mut sum_x2: Scalar = Scalar::zero();
        let mut sum_y2: Scalar = Scalar::zero();
        let mut i: usize = 0;
        while i < points.len()
            invariant
                i <= points.len(),
                cloud == cloud_view(points@),
                RealMoments::of(cloud, i as int) == (RealMoments {
                    n: n@,
                    x: sum_x@,
                    y: sum_y@,
                    z: sum_z@,
                    xx: sum_x2@,
                    yy: sum_y2@,
                    xy: sum_xy@,
                    xz: sum_xz@,
                    yz: sum_yz@,
                }),
            decreases points.len() - i,
        {
            let p: &Vector3 = &points[i];
            assert(cloud[i as int] == p@);
            n = n.add(&Scalar::one());
            sum_x = sum_x.add(&p.x);
            sum_y = sum_y.add(&p.y);
            sum_z = sum_z.add(&p.z);
            sum_x2 = sum_x2.add(&p.x.mul(&p.x));
            sum_y2 = sum_y2.add(&p.y.mul(&p.y));
            sum_xy = sum_xy.add(&p.x.mul(&p.y));
            sum_xz = sum_xz.add(&p.x.mul(&p.z));
            sum_yz = sum_yz.add(&p.y.mul(&p.z));
            i = i + 1;
        }
        let forward_matrix: Matrix3 = Matrix3::new(
            [
                [sum_x2, sum_xy.clone(), sum_x.clone()],
                [sum_xy, sum_y2, sum_y.clone()],
                [sum_x, sum_y, n],
            ],
        );
        let v: Vector3 = Vector3::new(sum_xz, sum_yz, sum_z);
        match forward_matrix.inverse() {
            None => None,
            Some(reverse_matrix) => {
                let param_vector: Vector3 = reverse_matrix.apply(&v);
                let mut square_error: Scalar = Scalar::zero();
                let mut k: usize = 0;
                while k < points.len()
                    invariant
                        k <= points.len(),
                        cloud == cloud_view(points@),
                        square_error@ == squared_error(cloud, param_vector@, k as int),
                    decreases points.len() - k,
                {
                    let pt: &Vector3 = &points[k];
                    assert(cloud[k as int] == pt@);
                    let miss: Scalar = pt.x.mul(&param_vector.x).add(
                        &pt.y.mul(&param_vector.y),
                    ).add(&param_vector.z).sub(&pt.z);
                    square_error = square_error.add(&miss.mul(&miss));
                    k = k + 1;
                }
                Some(
                    PlaneFit {
                        mx: param_vector.x,
                        my: param_vector.y,
                        c: param_vector.z,
                        square_error,
                    },
                )
            },
        }
    }

    /// Whether the point lies in the plane.
    pub fn point_intersects(&self, other: &Vector3) -> (r: bool)
        ensures
            r == self@.contains(other@),
    {
        self.normal.dot(&self.origin.sub(other)).is_zero()
    }

    /// The point `origin + t direction` of the plane, where `direction` is not
    /// parallel to it, and `t`.
    fn hit(&self, origin: &Vector3, direction: &Vector3) -> (r: (Scalar, Vector3))
        requires
            self@.normal.dot(direction@) != 0real,
        ensures
            r.0@ == self@.hit_parameter(origin@, direction@),
            r.1@ == self@.hit_point(origin@, direction@),
    {
        let adjusted: Vector3 = origin.sub(&self.origin);
        let no: Scalar = self.normal.dot(&adjusted);
        let nv: Scalar = self.normal.dot(direction);
        let t: Scalar = no.neg().div(&nv);
        let point: Vector3 = adjusted.add(&direction.scale(&t)).add(&self.origin);
        (t, point)
    }

    /// Whether a line through `origin` that is parallel to the plane lies in it.
    fn parallel_case(&self, origin: &Vector3) -> (r: Intersection)
        ensures
            r@ == self@.parallel_case(origin@),
    {
        if self.normal.dot(&origin.sub(&self.origin)).is_zero() {
            Intersection::LiesOn
        } else {
            Intersection::Never
        }
    }

    /// Tells whether and where a ray meets the plane.
    pub fn ray_intersects(&self, other: &Ray) -> (r: Intersection)
        ensures
            r@ == self@.ray_intersects(other@),
    {
        if self.normal.dot(&other.direction).is_zero() {
            self.parallel_case(&other.origin)
        } else {
            let (t, point) = self.hit(&other.origin, &other.direction);
            if t.is_negative() {
                Intersection::Never
            } else {
                Intersection::Once(point)
            }
        }
    }

    /// Tells whether and where a line meets the plane.
    pub fn line_intersects(&self, other: &Line) -> (r: Intersection)
        ensures
            r@ == self@.line_intersects(other@),
    {
        if self.normal.dot(&other.direction).is_zero() {
            self.parallel_case(&other.origin)
        } else {
            let (_t, point) = self.hit(&other.origin, &other.direction);
            Intersection::Once(point)
        }
    }

    /// Tells whether and where a segment meets the plane.
    pub fn segment_intersects(&self, other: &LineSegment) -> (r: Intersection)
        ensures
            r@ == self@.segment_intersects(other@),
    {
        let direction: Vector3 = other.b.sub(&other.a);
        if self.normal.dot(&direction).is_zero() {
            self.parallel_case(&other.a)
        } else {
            let (t, point) = self.hit(&other.a, &direction);
            let one: Scalar = Scalar::one();
            if t.is_positive() && t.less_than(&one) {
                Intersection::Once(point)
            } else if t.is_zero() || t.equals(&one) {
                Intersection::Edge(point)
            } else {
                Intersection::Never
            }
        }
    }
}

/// A plane with two axes over the reals: the mathematical model of `CoordinatePlane`.
pub struct RealCoordinatePlane {
    pub origin: RealVec3,
    pub x: RealVec3,
    pub y: RealVec3,
}

/// A plane with a frame of its own: an origin and two axes, orthogonal to each other.
#[derive(Debug, PartialEq)]
pub struct CoordinatePlane {
    pub origin: Vector3,
    pub x: Vector3,
    pub y: Vector3,
}

impl View for CoordinatePlane {
    type V = RealCoordinatePlane;

    open spec fn view(&self) -> RealCoordinatePlane {
        RealCoordinatePlane { origin: self.origin@, x: self.x@, y: self.y@ }
    }
}

impl Clone for CoordinatePlane {
    fn clone(&self) -> (r: Self)
        ensures
            r@ == self@,
    {
        CoordinatePlane { origin: self.origin.clone(), x: self.x.clone(), y: self.y.clone() }
    }
}

impl CoordinatePlane {
    /// The plane through `origin` with the axes `x` and `y`, or a failure
    /// where the two axes are not orthogonal.
    pub fn new(origin: Vector3, x: Vector3, y: Vector3) -> (r: Result<CoordinatePlane, String>)
        ensures
            r is Err <==> x@.dot(y@) != 0real,
            r is Err ==> r->Err_0@ == "Non-orthagnal vectors cannot form a plane"@,
            r is Ok ==> r->Ok_0@ == (RealCoordinatePlane { origin: origin@, x: x@, y: y@ }),
    {
        if !x.dot(&y).is_zero() {
            Err("Non-orthagnal vectors cannot form a plane".to_owned())
        } else {
            Ok(CoordinatePlane { origin, x, y })
        }
    }
}

/// Where a line is not parallel to a plane, the point that the queries give
/// lies on the line, at the parameter they compute, and in the plane.
pub proof fn lemma_hit_point_on_plane(plane: RealPlane, origin: RealVec3, direction: RealVec3)
    requires
        plane.normal.dot(direction) != 0real,
    ensures
        plane.hit_point(origin, direction) == origin.add(
            direction.scale(plane.hit_parameter(origin, direction)),
        ),
        plane.contains(plane.hit_point(origin, direction)),
{
    let n = plane.normal;
    lemma_plane_equation(plane, origin, direction, plane.hit_parameter(origin, direction));
    lemma_divide_multiply(-n.dot(origin.sub(plane.origin)), n.dot(direction));
}

/// A plane is the same set of points whatever the length of its normal: with
/// the normal scaled by a factor other than zero, every query answers as before.
pub proof fn lemma_normal_length_is_free(
    plane: RealPlane,
    k: real,
    point: RealVec3,
    ray: RealRay,
    line: RealLine,
    segment: RealSegment,
)
    requires
        k != 0real,
    ensures
        ({
            let scaled = RealPlane { origin: plane.origin, normal: plane.normal.scale(k) };
            &&& scaled.contains(point) == plane.contains(point)
            &&& scaled.ray_intersects(ray) == plane.ray_intersects(ray)
            &&& scaled.line_intersects(line) == plane.line_intersects(line)
            &&& scaled.segment_intersects(segment) == plane.segment_intersects(segment)
        }),
{
    let scaled = RealPlane { origin: plane.origin, normal: plane.normal.scale(k) };
    lemma_same_test(plane, k, plane.origin.sub(point));
    lemma_same_hit(plane, k, ray.origin, ray.direction);
    lemma_same_hit(plane, k, line.origin, line.direction);
    lemma_same_hit(plane, k, segment.a, segment.b.sub(segment.a));
}

/// With the normal scaled by a factor other than zero, a vector is orthogonal
/// to the normal just where it was.
proof fn lemma_same_test(plane: RealPlane, k: real, v: RealVec3)
    requires
        k != 0real,
    ensures
        plane.normal.scale(k).dot(v) == 0real <==> plane.normal.dot(v) == 0real,
{
    lemma_dot_scales(plane.normal, v, k);
    lemma_cancel_common_factor(plane.normal.dot(v), 1real, k);
}

/// With the normal scaled by a factor other than zero, a line meets the plane
/// where it did.
proof fn lemma_same_hit(plane: RealPlane, k: real, origin: RealVec3, direction: RealVec3)
    requires
        k != 0real,
    ensures
        ({
            let scaled = RealPlane { origin: plane.origin, normal: plane.normal.scale(k) };
            &&& scaled.normal.dot(direction) == 0real <==> plane.normal.dot(direction) == 0real
            &&& scaled.parallel_case(origin) == plane.parallel_case(origin)
            &&& plane.normal.dot(direction) != 0real ==> scaled.hit_parameter(origin, direction)
                == plane.hit_parameter(origin, direction)
            &&& plane.normal.dot(direction) != 0real ==> scaled.hit_point(origin, direction)
                == plane.hit_point(origin, direction)
        }),
{
    let n = plane.normal;
    let offset = origin.sub(plane.origin);
    lemma_same_test(plane, k, direction);
    lemma_same_test(plane, k, offset);
    lemma_dot_scales(n, direction, k);
    lemma_dot_scales(n, offset, k);
    if n.dot(direction) != 0real {
        lemma_cancel_common_factor(-n.dot(offset), n.dot(direction), k);
        assert(-(n.dot(offset) * k) == (-n.dot(offset)) * k) by (nonlinear_arith);
    }
}

/// The parameters that the fit gives solve the normal equations of least squares.
pub proof fn lemma_fit_solves_normal_equations(moments: RealMoments)
    requires
        moments.matrix().determinant() != 0real,
    ensures
        moments.matrix().apply(moments.solution()) == moments.target(),
{
    lemma_inverse_solves(moments.matrix(), moments.target());
}

/// The point `origin + t direction` lies in the plane just where
/// `n . (origin - plane origin) + (n . direction) t` is zero, `n` being the normal.
pub proof fn lemma_plane_equation(plane: RealPlane, origin: RealVec3, direction: RealVec3, t: real)
    ensures
        plane.contains(origin.add(direction.scale(t))) <==> plane.normal.dot(
            origin.sub(plane.origin),
        ) + plane.normal.dot(direction) * t == 0real,
{
    let n = plane.normal;
    let offset = origin.sub(plane.origin);
    let step = direction.scale(t);
    let point = origin.add(step);
    assert(plane.origin.sub(point) == offset.add(step).neg());
    lemma_dot_scales(n, offset.add(step), -1real);
    assert(offset.add(step).scale(-1real) == offset.add(step).neg()) by {
        let v = offset.add(step);
        assert(v.x * (-1real) == -v.x) by (nonlinear_arith);
        assert(v.y * (-1real) == -v.y) by (nonlinear_arith);
        assert(v.z * (-1real) == -v.z) by (nonlinear_arith);
    }
    lemma_dot_adds(n, offset, step);
    lemma_dot_scales(n, direction, t);
    let sum = n.dot(offset.add(step));
    assert(sum * (-1real) == -sum) by (nonlinear_arith);
}

/// What the answer on a line means: `Once` gives the one point of the line
/// in the plane; `LiesOn` says that every point of the line is in the plane;
/// `Never` says that none is.
pub proof fn lemma_line_intersects_meaning(plane: RealPlane, line: RealLine)
    ensures
        match plane.line_intersects(line) {
            RealIntersection::Once(p) => plane.contains(p) && forall|t: real|
                plane.contains(#[trigger] line.at(t)) ==> line.at(t) == p,
            RealIntersection::Edge(_) => false,
            RealIntersection::LiesOn => forall|t: real| plane.contains(#[trigger] line.at(t)),
            RealIntersection::Never => forall|t: real| !plane.contains(#[trigger] line.at(t)),
        },
{
    let n = plane.normal;
    let no = n.dot(line.origin.sub(plane.origin));
    let nv = n.dot(line.direction);
    if nv == 0real {
        assert forall|t: real| plane.contains(#[trigger] line.at(t)) <==> no == 0real by {
            lemma_plane_equation(plane, line.origin, line.direction, t);
            lemma_zero_one(t);
        }
    } else {
        lemma_hit_point_on_plane(plane, line.origin, line.direction);
        assert forall|t: real| plane.contains(#[trigger] line.at(t)) implies line.at(t)
            == plane.hit_point(line.origin, line.direction) by {
            lemma_plane_equation(plane, line.origin, line.direction, t);
            lemma_linear_root(no, nv, t);
        }
    }
}

/// What the answer on a ray means: `Once` gives the one point of the ray in
/// the plane; `LiesOn` says that every point of the ray is in the plane;
/// `Never` says that none is. The points of the ray are those at a parameter
/// that is not negative.
pub proof fn lemma_ray_intersects_meaning(plane: RealPlane, ray: RealRay)
    ensures
        match plane.ray_intersects(ray) {
            RealIntersection::Once(p) => plane.contains(p) && (exists|t: real|
                t >= 0real && #[trigger] ray.at(t) == p) && forall|t: real|
                t >= 0real && plane.contains(#[trigger] ray.at(t)) ==> ray.at(t) == p,
            RealIntersection::Edge(_) => false,
            RealIntersection::LiesOn => forall|t: real| plane.contains(#[trigger] ray.at(t)),
            RealIntersection::Never => forall|t: real|
                t >= 0real ==> !plane.contains(#[trigger] ray.at(t)),
        },
{
    let n = plane.normal;
    let no = n.dot(ray.origin.sub(plane.origin));
    let nv = n.dot(ray.direction);
    if nv == 0real {
        assert forall|t: real| plane.contains(#[trigger] ray.at(t)) <==> no == 0real by {
            lemma_plane_equation(plane, ray.origin, ray.direction, t);
            lemma_zero_one(t);
        }
    } else {
        let t0 = plane.hit_parameter(ray.origin, ray.direction);
        lemma_hit_point_on_plane(plane, ray.origin, ray.direction);
        assert forall|t: real| plane.contains(#[trigger] ray.at(t)) implies t == t0 by {
            lemma_plane_equation(plane, ray.origin, ray.direction, t);
            lemma_linear_root(no, nv, t);
        }
        if t0 >= 0real {
            assert(ray.at(t0) == plane.hit_point(ray.origin, ray.direction));
        }
    }
}

/// What the answer on a segment means: `Once` gives the one point of the
/// segment in the plane, which lies strictly between its ends; `Edge` gives
/// it where it is one of the ends; `LiesOn` says that the whole line through
/// the segment is in the plane; `Never` says that no point of the segment is.
/// The points of the segment are those at a fraction from zero to one.
pub proof fn lemma_segment_intersects_meaning(plane: RealPlane, segment: RealSegment)
    ensures
        match plane.segment_intersects(segment) {
            RealIntersection::Once(p) => plane.contains(p) && (exists|t: real|
                0real < t < 1real && #[trigger] segment.at(t) == p) && forall|t: real|
                plane.contains(#[trigger] segment.at(t)) ==> segment.at(t) == p,
            RealIntersection::Edge(p) => plane.contains(p) && (p == segment.at(0real) || p
                == segment.at(1real)) && forall|t: real|
                plane.contains(#[trigger] segment.at(t)) ==> segment.at(t) == p,
            RealIntersection::LiesOn => forall|t: real| plane.contains(#[trigger] segment.at(t)),
            RealIntersection::Never => forall|t: real|
                0real <= t <= 1real ==> !plane.contains(#[trigger] segment.at(t)),
        },
{
    let n = plane.normal;
    let direction = segment.b.sub(segment.a);
    let no = n.dot(segment.a.sub(plane.origin));
    let nv = n.dot(direction);
    if nv == 0real {
        assert forall|t: real| plane.contains(#[trigger] segment.at(t)) <==> no == 0real by {
            lemma_plane_equation(plane, segment.a, direction, t);
            lemma_zero_one(t);
        }
    } else {
        let t0 = plane.hit_parameter(segment.a, direction);
        lemma_hit_point_on_plane(plane, segment.a, direction);
        assert forall|t: real| plane.contains(#[trigger] segment.at(t)) implies t == t0 by {
            lemma_plane_equation(plane, segment.a, direction, t);
            lemma_linear_root(no, nv, t);
        }
        assert(segment.at(t0) == plane.hit_point(segment.a, direction));
    }
}

/// A plane made with the length of its normal has a normal of length one,
/// unless the normal is zero.
pub proof fn lemma_plane_normal_unit(origin: RealVec3, normal: RealVec3, magnitude: real)
    requires
        normal.has_length(magnitude),
        normal != RealVec3::zero(),
    ensures
        RealPlane::new(origin, normal, magnitude).normal.has_length(1real),
{
    lemma_hat_length(normal, magnitude);
}

/// To bring the normal to length one changes no answer: the plane made of a
/// normal and a magnitude other than zero answers every query as the plane
/// with the normal as it was.
pub proof fn lemma_new_keeps_the_plane(
    origin: RealVec3,
    normal: RealVec3,
    magnitude: real,
    point: RealVec3,
    ray: RealRay,
    line: RealLine,
    segment: RealSegment,
)
    requires
        magnitude != 0real,
    ensures
        ({
            let made = RealPlane::new(origin, normal, magnitude);
            let raw = RealPlane { origin: origin, normal: normal };
            &&& made.contains(point) == raw.contains(point)
            &&& made.ray_intersects(ray) == raw.ray_intersects(ray)
            &&& made.line_intersects(line) == raw.line_intersects(line)
            &&& made.segment_intersects(segment) == raw.segment_intersects(segment)
        }),
{
    let raw = RealPlane { origin: origin, normal: normal };
    if normal != RealVec3::zero() {
        let k = 1real / magnitude;
        lemma_reciprocal(magnitude);
        lemma_divide_is_scale(normal.x, magnitude);
        lemma_divide_is_scale(normal.y, magnitude);
        lemma_divide_is_scale(normal.z, magnitude);
        assert(normal.hat(magnitude) == normal.scale(k));
        lemma_normal_length_is_free(raw, k, point, ray, line, segment);
    }
}

/// The sum of squares that a fit leaves over is not negative.
pub proof fn lemma_squared_error_not_negative(points: Seq<RealVec3>, params: RealVec3, upto: int)
    ensures
        squared_error(points, params, upto) >= 0real,
    decreases upto,
{
    if upto > 0 {
        let p = points[upto - 1];
        lemma_squared_error_not_negative(points, params, upto - 1);
        lemma_square(p.x * params.x + p.y * params.y + params.z - p.z);
    }
}

/// The sum, over the first `upto` points, of `(x, y, 1)` times what the plane
/// of the parameters leaves at the point `(x, y, z)`: it is zero just where
/// the parameters solve the normal equations.
pub open spec fn residual(points: Seq<RealVec3>, params: RealVec3, upto: int) -> RealVec3
    decreases upto,
{
    if upto <= 0 {
        RealVec3::zero()
    } else {
        let p = points[upto - 1];
        residual(points, params, upto - 1).add(
            (RealVec3 { x: p.x, y: p.y, z: 1real }).scale(miss(p, params)),
        )
    }
}

/// The sum, over the first `upto` points, of the squares of what a change
/// `delta` of the parameters changes at the point.
pub open spec fn change(points: Seq<RealVec3>, delta: RealVec3, upto: int) -> real
    decreases upto,
{
    if upto <= 0 {
        0real
    } else {
        let p = points[upto - 1];
        let d = p.x * delta.x + p.y * delta.y + delta.z;
        change(points, delta, upto - 1) + d * d
    }
}

/// The residual of the parameters is the matrix of the normal equations
/// applied to them, less the right-hand side.
proof fn lemma_residual_is_defect(points: Seq<RealVec3>, params: RealVec3, upto: int)
    ensures
        residual(points, params, upto) == RealMoments::of(points, upto).matrix().apply(
            params,
        ).sub(RealMoments::of(points, upto).target()),
    decreases upto,
{
    lemma_zero_one(params.x);
    lemma_zero_one(params.y);
    lemma_zero_one(params.z);
    if upto > 0 {
        let p = points[upto - 1];
        let before = RealMoments::of(points, upto - 1);
        let m = miss(p, params);
        lemma_residual_is_defect(points, params, upto - 1);
        lemma_distribute_signed(p.x, p.x * params.x, p.y * params.y, params.z, p.z);
        lemma_distribute_signed(p.y, p.x * params.x, p.y * params.y, params.z, p.z);
        lemma_zero_one(m);
        lemma_product3(p.x, p.x, params.x);
        lemma_product3(p.x, p.y, params.x);
        lemma_product3(p.x, p.y, params.y);
        lemma_product3(p.y, p.y, params.y);
        lemma_commute(p.x, params.x);
        lemma_commute(p.y, params.y);
        lemma_commute(p.x, params.z);
        lemma_commute(p.y, params.z);
        lemma_commute(p.x, p.z);
        lemma_commute(p.y, p.z);
        lemma_commute(p.x, p.y);
        lemma_distribute2(params.x, before.xx, p.x * p.x);
        lemma_distribute2(params.y, before.xy, p.x * p.y);
        lemma_distribute2(params.z, before.x, p.x);
        lemma_distribute2(params.x, before.xy, p.x * p.y);
        lemma_distribute2(params.y, before.yy, p.y * p.y);
        lemma_distribute2(params.z, before.y, p.y);
        lemma_distribute2(params.x, before.x, p.x);
        lemma_distribute2(params.y, before.y, p.y);
        lemma_distribute2(params.z, before.n, 1real);
    }
}

/// With the parameters changed by `delta`, the sum of squares left over is
/// what it was, plus twice the change along the residual, plus the sum of
/// the squares of the changes; and that last sum is not negative.
proof fn lemma_error_after_change(
    points: Seq<RealVec3>,
    params: RealVec3,
    delta: RealVec3,
    upto: int,
)
    ensures
        squared_error(points, params.add(delta), upto) == squared_error(points, params, upto)
            + 2real * delta.dot(residual(points, params, upto)) + change(points, delta, upto),
        change(points, delta, upto) >= 0real,
    decreases upto,
{
    lemma_zero_one(delta.x);
    lemma_zero_one(delta.y);
    lemma_zero_one(delta.z);
    if upto > 0 {
        let p = points[upto - 1];
        let m = miss(p, params);
        let d = p.x * delta.x + p.y * delta.y + delta.z;
        let phi = RealVec3 { x: p.x, y: p.y, z: 1real };
        lemma_error_after_change(points, params, delta, upto - 1);
        lemma_distribute2(p.x, params.x, delta.x);
        lemma_distribute2(p.y, params.y, delta.y);
        assert(miss(p, params.add(delta)) == m + d);
        lemma_square_of_sum(m, d);
        lemma_square(d);
        lemma_dot_adds(delta, residual(points, params, upto - 1), phi.scale(m));
        lemma_dot_scales(delta, phi, m);
        lemma_commute(delta.x, p.x);
        lemma_commute(delta.y, p.y);
        assert(delta.dot(phi) == d);
        lemma_commute(d, m);
    }
}

/// The fit is the least-squares fit: no other parameters leave a smaller sum
/// of squares over the points.
pub proof fn lemma_fit_is_least(points: Seq<RealVec3>, other: RealVec3)
    requires
        RealMoments::of(points, points.len() as int).matrix().determinant() != 0real,
    ensures
        squared_error(
            points,
            RealMoments::of(points, points.len() as int).solution(),
            points.len() as int,
        ) <= squared_error(points, other, points.len() as int),
{
    let n = points.len() as int;
    let moments = RealMoments::of(points, n);
    let best = moments.solution();
    let delta = other.sub(best);
    assert(best.add(delta) == other);
    lemma_fit_solves_normal_equations(moments);
    lemma_residual_is_defect(points, best, n);
    assert(residual(points, best, n) == RealVec3::zero());
    lemma_error_after_change(points, best, delta, n);
    lemma_zero_one(delta.x);
    lemma_zero_one(delta.y);
    lemma_zero_one(delta.z);
}

} // verus!
