//! Vectors of the plane and of space, with exact components.
use crate::quaternion::{Quaternion, RealQuat};
use crate::scalar::Scalar;
use crate::utils::real_ring::{
    lemma_commute, lemma_distribute2, lemma_distribute3, lemma_divide_by_itself,
    lemma_divide_is_scale, lemma_multiply_divide, lemma_product3, lemma_reciprocal, lemma_square,
    lemma_square_of_product, lemma_square_of_quotient, lemma_sum_of_quotients, lemma_zero_one,
};
use vstd::prelude::*;
use vstd::std_specs::cmp::PartialEqSpecImpl;

verus! {

/// The square of the distance under which two vectors count as equal: `1e-24`,
/// the square of `1e-12`.
pub open spec fn tolerance_squared() -> real {
    1real / 1_000_000_000_000_000_000_000_000real
}

/// Computes `tolerance_squared`.
pub fn tolerance_squared_value() -> (r: Scalar)
    ensures
        r@ == tolerance_squared(),
{
    let million_squared: Scalar = Scalar::from_int(1_000_000_000_000);
    let bound: Scalar = million_squared.mul(&million_squared);
    Scalar::one().div(&bound)
}

/// A vector of real three-space: the mathematical model of `Vector3`.
pub struct RealVec3 {
    pub x: real,
    pub y: real,
    pub z: real,
}

impl RealVec3 {
    pub open spec fn zero() -> RealVec3 {
        RealVec3 { x: 0real, y: 0real, z: 0real }
    }

    pub open spec fn i_hat() -> RealVec3 {
        RealVec3 { x: 1real, y: 0real, z: 0real }
    }

    pub open spec fn j_hat() -> RealVec3 {
        RealVec3 { x: 0real, y: 1real, z: 0real }
    }

    pub open spec fn k_hat() -> RealVec3 {
        RealVec3 { x: 0real, y: 0real, z: 1real }
    }

    pub open spec fn add(self, rhs: RealVec3) -> RealVec3 {
        RealVec3 { x: self.x + rhs.x, y: self.y + rhs.y, z: self.z + rhs.z }
    }

    pub open spec fn sub(self, rhs: RealVec3) -> RealVec3 {
        RealVec3 { x: self.x - rhs.x, y: self.y - rhs.y, z: self.z - rhs.z }
    }

    pub open spec fn neg(self) -> RealVec3 {
        RealVec3 { x: -self.x, y: -self.y, z: -self.z }
    }

    pub open spec fn scale(self, k: real) -> RealVec3 {
        RealVec3 { x: self.x * k, y: self.y * k, z: self.z * k }
    }

    pub open spec fn div(self, k: real) -> RealVec3 {
        RealVec3 { x: self.x / k, y: self.y / k, z: self.z / k }
    }

    pub open spec fn dot(self, rhs: RealVec3) -> real {
        self.x * rhs.x + self.y * rhs.y + self.z * rhs.z
    }

    pub open spec fn cross(self, rhs: RealVec3) -> RealVec3 {
        RealVec3 {
            x: self.y * rhs.z - self.z * rhs.y,
            y: self.z * rhs.x - self.x * rhs.z,
            z: self.x * rhs.y - self.y * rhs.x,
        }
    }

    /// The square of the Euclidean length.
    pub open spec fn norm_squared(self) -> real {
        self.dot(self)
    }

    /// Equality up to the tolerance: the distance is under `1e-12`.
    pub open spec fn close_to(self, rhs: RealVec3) -> bool {
        self.sub(rhs).norm_squared() < tolerance_squared()
    }

    /// Whether `m` is the Euclidean length of the vector.
    pub open spec fn has_length(self, m: real) -> bool {
        m >= 0real && m * m == self.norm_squared()
    }

    /// The vector divided by `magnitude`; the zero vector stays as it is. With
    /// the vector's length for `magnitude` this is the vector of length one
    /// along it.
    pub open spec fn hat(self, magnitude: real) -> RealVec3 {
        if self == RealVec3::zero() {
            self
        } else {
            self.div(magnitude)
        }
    }

    /// The vector times `magnitude`, divided by `own`; the zero vector where
    /// `own` is zero. With the vector's length for `own` this is the vector
    /// of length `magnitude` along it.
    pub open spec fn with_magnitude(self, magnitude: real, own: real) -> RealVec3 {
        if own == 0real {
            RealVec3::zero()
        } else {
            self.scale(magnitude).div(own)
        }
    }

    /// The dot product divided by the product of `own` and `other`, where that
    /// is not zero. With the lengths of the two vectors for `own` and `other`
    /// this is the cosine of the angle between them.
    pub open spec fn angle_cosine(self, rhs: RealVec3, own: real, other: real) -> Option<real> {
        if own * other == 0real {
            None
        } else {
            Some(self.dot(rhs) / (own * other))
        }
    }
}

/// A vector of the real plane: the mathematical model of `Vector2`.
pub struct RealVec2 {
    pub x: real,
    pub y: real,
}

impl RealVec2 {
    pub open spec fn zero() -> RealVec2 {
        RealVec2 { x: 0real, y: 0real }
    }

    pub open spec fn i_hat() -> RealVec2 {
        RealVec2 { x: 1real, y: 0real }
    }

    pub open spec fn j_hat() -> RealVec2 {
        RealVec2 { x: 0real, y: 1real }
    }

    pub open spec fn add(self, rhs: RealVec2) -> RealVec2 {
        RealVec2 { x: self.x + rhs.x, y: self.y + rhs.y }
    }

    pub open spec fn sub(self, rhs: RealVec2) -> RealVec2 {
        RealVec2 { x: self.x - rhs.x, y: self.y - rhs.y }
    }

    pub open spec fn neg(self) -> RealVec2 {
        RealVec2 { x: -self.x, y: -self.y }
    }

    pub open spec fn scale(self, k: real) -> RealVec2 {
        RealVec2 { x: self.x * k, y: self.y * k }
    }

    pub open spec fn div(self, k: real) -> RealVec2 {
        RealVec2 { x: self.x / k, y: self.y / k }
    }

    pub open spec fn dot(self, rhs: RealVec2) -> real {
        self.x * rhs.x + self.y * rhs.y
    }

    /// The third component of the cross product of the two vectors, taken in space.
    pub open spec fn cross(self, rhs: RealVec2) -> real {
        self.x * rhs.y - self.y * rhs.x
    }

    pub open spec fn norm_squared(self) -> real {
        self.dot(self)
    }

    pub open spec fn close_to(self, rhs: RealVec2) -> bool {
        self.sub(rhs).norm_squared() < tolerance_squared()
    }

    /// Whether `m` is the Euclidean length of the vector.
    pub open spec fn has_length(self, m: real) -> bool {
        m >= 0real && m * m == self.norm_squared()
    }

    /// The vector divided by `magnitude`; the zero vector stays as it is.
    pub open spec fn hat(self, magnitude: real) -> RealVec2 {
        if self == RealVec2::zero() {
            self
        } else {
            self.div(magnitude)
        }
    }

    /// The dot product divided by the product of `own` and `other`, where that
    /// is not zero.
    pub open spec fn angle_cosine(self, rhs: RealVec2, own: real, other: real) -> Option<real> {
        if own * other == 0real {
            None
        } else {
            Some(self.dot(rhs) / (own * other))
        }
    }
}

#[derive(Debug)]
pub struct Vector3 {
    pub x: Scalar,
    pub y: Scalar,
    pub z: Scalar,
}

#[derive(Debug)]
pub struct Vector2 {
    pub x: Scalar,
    pub y: Scalar,
}

impl View for Vector3 {
    type V = RealVec3;

    open spec fn view(&self) -> RealVec3 {
        RealVec3 { x: self.x@, y: self.y@, z: self.z@ }
    }
}

impl View for Vector2 {
    type V = RealVec2;

    open spec fn view(&self) -> RealVec2 {
        RealVec2 { x: self.x@, y: self.y@ }
    }
}

impl Clone for Vector3 {
    fn clone(&self) -> (r: Self)
        ensures
            r@ == self@,
    {
        Vector3 { x: self.x.clone(), y: self.y.clone(), z: self.z.clone() }
    }
}

impl Clone for Vector2 {
    fn clone(&self) -> (r: Self)
        ensures
            r@ == self@,
    {
        Vector2 { x: self.x.clone(), y: self.y.clone() }
    }
}

impl PartialEq for Vector3 {
    /// Two vectors are equal when they are less than `1e-12` apart.
    fn eq(&self, other: &Self) -> (r: bool) {
        let gap: Scalar = self.sub(other).magnitude_squared();
        gap.less_than(&tolerance_squared_value())
    }
}

impl PartialEqSpecImpl for Vector3 {
    open spec fn obeys_eq_spec() -> bool {
        true
    }

    open spec fn eq_spec(&self, other: &Self) -> bool {
        self@.close_to(other@)
    }
}

impl PartialEq for Vector2 {
    /// Two vectors are equal when they are less than `1e-12` apart.
    fn eq(&self, other: &Self) -> (r: bool) {
        let gap: Scalar = self.sub(other).magnitude_squared();
        gap.less_than(&tolerance_squared_value())
    }
}

impl PartialEqSpecImpl for Vector2 {
    open spec fn obeys_eq_spec() -> bool {
        true
    }

    open spec fn eq_spec(&self, other: &Self) -> bool {
        self@.close_to(other@)
    }
}

impl Vector3 {
    pub fn new(x: Scalar, y: Scalar, z: Scalar) -> (r: Vector3)
        ensures
            r@ == (RealVec3 { x: x@, y: y@, z: z@ }),
    {
        Vector3 { x, y, z }
    }

    pub fn i_hat() -> (r: Vector3)
        ensures
            r@ == RealVec3::i_hat(),
    {
        Vector3::new(Scalar::one(), Scalar::zero(), Scalar::zero())
    }

    pub fn j_hat() -> (r: Vector3)
        ensures
            r@ == RealVec3::j_hat(),
    {
        Vector3::new(Scalar::zero(), Scalar::one(), Scalar::zero())
    }

    pub fn k_hat() -> (r: Vector3)
        ensures
            r@ == RealVec3::k_hat(),
    {
        Vector3::new(Scalar::zero(), Scalar::zero(), Scalar::one())
    }

    pub fn zero() -> (r: Vector3)
        ensures
            r@ == RealVec3::zero(),
    {
        Vector3::new(Scalar::zero(), Scalar::zero(), Scalar::zero())
    }

    pub fn add(&self, rhs: &Vector3) -> (r: Vector3)
        ensures
            r@ == self@.add(rhs@),
    {
        Vector3 { x: self.x.add(&rhs.x), y: self.y.add(&rhs.y), z: self.z.add(&rhs.z) }
    }

    pub fn sub(&self, rhs: &Vector3) -> (r: Vector3)
        ensures
            r@ == self@.sub(rhs@),
    {
        Vector3 { x: self.x.sub(&rhs.x), y: self.y.sub(&rhs.y), z: self.z.sub(&rhs.z) }
    }

    pub fn neg(&self) -> (r: Vector3)
        ensures
            r@ == self@.neg(),
    {
        Vector3 { x: self.x.neg(), y: self.y.neg(), z: self.z.neg() }
    }

    /// The vector with every component multiplied by `k`.
    pub fn scale(&self, k: &Scalar) -> (r: Vector3)
        ensures
            r@ == self@.scale(k@),
    {
        Vector3 { x: self.x.mul(k), y: self.y.mul(k), z: self.z.mul(k) }
    }

    /// The vector with every component divided by `k`, which is not zero.
    pub fn div(&self, k: &Scalar) -> (r: Vector3)
        requires
            k@ != 0real,
        ensures
            r@ == self@.div(k@),
    {
        Vector3 { x: self.x.div(k), y: self.y.div(k), z: self.z.div(k) }
    }

    /// The square of the Euclidean length.
    pub fn magnitude_squared(&self) -> (r: Scalar)
        ensures
            r@ == self@.norm_squared(),
    {
        self.dot(self)
    }

    pub fn dot(&self, rhs: &Vector3) -> (r: Scalar)
        ensures
            r@ == self@.dot(rhs@),
    {
        let xx: Scalar = self.x.mul(&rhs.x);
        let yy: Scalar = self.y.mul(&rhs.y);
        let zz: Scalar = self.z.mul(&rhs.z);
        xx.add(&yy).add(&zz)
    }

    pub fn as_array(&self) -> (r: [Scalar; 3])
        ensures
            r@[0]@ == self@.x,
            r@[1]@ == self@.y,
            r@[2]@ == self@.z,
    {
        [self.x.clone(), self.y.clone(), self.z.clone()]
    }

    pub fn cross(&self, rhs: &Vector3) -> (r: Vector3)
        ensures
            r@ == self@.cross(rhs@),
    {
        Vector3 {
            x: self.y.mul(&rhs.z).sub(&self.z.mul(&rhs.y)),
            y: self.z.mul(&rhs.x).sub(&self.x.mul(&rhs.z)),
            z: self.x.mul(&rhs.y).sub(&self.y.mul(&rhs.x)),
        }
    }

    /// The product of the two vectors as quaternions without scalar part,
    /// negated in its scalar part: the dot product beside the cross product.
    pub fn mul(&self, rhs: &Vector3) -> (r: Quaternion)
        ensures
            r@ == RealQuat::from_scalar_vector(self@.dot(rhs@), self@.cross(rhs@)),
    {
        Quaternion::from_scalar_vector(self.dot(rhs), self.cross(rhs))
    }

    /// The cosine of the angle between the two vectors, from their lengths,
    /// which the caller has computed; nothing where one of the lengths is zero.
    pub fn angle_cosine(&self, rhs: &Vector3, own: &Scalar, other: &Scalar) -> (r: Option<Scalar>)
        ensures
            r is None <==> self@.angle_cosine(rhs@, own@, other@) is None,
            r is Some ==> Some(r->Some_0@) == self@.angle_cosine(rhs@, own@, other@),
    {
        let product: Scalar = own.mul(other);
        if product.is_zero() {
            None
        } else {
            Some(self.dot(rhs).div(&product))
        }
    }

    /// The vector of length one along this one, from this one's length, which
    /// the caller has computed. The zero vector stays as it is.
    pub fn hat(&self, magnitude: &Scalar) -> (r: Vector3)
        requires
            self@ != RealVec3::zero() ==> magnitude@ != 0real,
        ensures
            r@ == self@.hat(magnitude@),
    {
        if self.is_zero() {
            self.clone()
        } else {
            self.div(magnitude)
        }
    }

    /// The vector of length `magnitude` along this one, from this one's
    /// length `own`, which the caller has computed. Where `own` is zero the
    /// result is the zero vector, whatever `magnitude` is.
    pub fn with_magnitude(&self, magnitude: &Scalar, own: &Scalar) -> (r: Vector3)
        ensures
            r@ == self@.with_magnitude(magnitude@, own@),
    {
        if own.is_zero() {
            Vector3::zero()
        } else {
            self.scale(magnitude).div(own)
        }
    }

    /// Whether `m` is the length of the vector: not negative, and its square
    /// the sum of the squares of the components.
    pub fn has_length(&self, m: &Scalar) -> (r: bool)
        ensures
            r == self@.has_length(m@),
    {
        !m.is_negative() && m.mul(m).equals(&self.magnitude_squared())
    }

    /// The square of the distance to `other`.
    pub fn dist_squared_to(&self, other: &Vector3) -> (r: Scalar)
        ensures
            r@ == self@.sub(other@).norm_squared(),
    {
        self.sub(other).magnitude_squared()
    }

    /// Whether every component is zero.
    pub fn is_zero(&self) -> (r: bool)
        ensures
            r == (self@ == RealVec3::zero()),
    {
        self.x.is_zero() && self.y.is_zero() && self.z.is_zero()
    }
}

impl Vector2 {
    pub fn new(x: Scalar, y: Scalar) -> (r: Vector2)
        ensures
            r@ == (RealVec2 { x: x@, y: y@ }),
    {
        Vector2 { x, y }
    }

    pub fn i_hat() -> (r: Vector2)
        ensures
            r@ == RealVec2::i_hat(),
    {
        Vector2::new(Scalar::one(), Scalar::zero())
    }

    pub fn j_hat() -> (r: Vector2)
        ensures
            r@ == RealVec2::j_hat(),
    {
        Vector2::new(Scalar::zero(), Scalar::one())
    }

    pub fn zero() -> (r: Vector2)
        ensures
            r@ == RealVec2::zero(),
    {
        Vector2::new(Scalar::zero(), Scalar::zero())
    }

    pub fn add(&self, rhs: &Vector2) -> (r: Vector2)
        ensures
            r@ == self@.add(rhs@),
    {
        Vector2 { x: self.x.add(&rhs.x), y: self.y.add(&rhs.y) }
    }

    pub fn sub(&self, rhs: &Vector2) -> (r: Vector2)
        ensures
            r@ == self@.sub(rhs@),
    {
        Vector2 { x: self.x.sub(&rhs.x), y: self.y.sub(&rhs.y) }
    }

    pub fn neg(&self) -> (r: Vector2)
        ensures
            r@ == self@.neg(),
    {
        Vector2 { x: self.x.neg(), y: self.y.neg() }
    }

    /// The vector with every component multiplied by `k`.
    pub fn scale(&self, k: &Scalar) -> (r: Vector2)
        ensures
            r@ == self@.scale(k@),
    {
        Vector2 { x: self.x.mul(k), y: self.y.mul(k) }
    }

    /// The vector with every component divided by `k`, which is not zero.
    pub fn div(&self, k: &Scalar) -> (r: Vector2)
        requires
            k@ != 0real,
        ensures
            r@ == self@.div(k@),
    {
        Vector2 { x: self.x.div(k), y: self.y.div(k) }
    }

    /// The square of the Euclidean length.
    pub fn magnitude_squared(&self) -> (r: Scalar)
        ensures
            r@ == self@.norm_squared(),
    {
        self.dot(self)
    }

    pub fn dot(&self, rhs: &Vector2) -> (r: Scalar)
        ensures
            r@ == self@.dot(rhs@),
    {
        self.x.mul(&rhs.x).add(&self.y.mul(&rhs.y))
    }

    pub fn cross(&self, rhs: &Vector2) -> (r: Scalar)
        ensures
            r@ == self@.cross(rhs@),
    {
        self.x.mul(&rhs.y).sub(&self.y.mul(&rhs.x))
    }

    /// The cosine of the angle between the two vectors, from their lengths,
    /// which the caller has computed; nothing where one of the lengths is zero.
    pub fn angle_cosine(&self, rhs: &Vector2, own: &Scalar, other: &Scalar) -> (r: Option<Scalar>)
        ensures
            r is None <==> self@.angle_cosine(rhs@, own@, other@) is None,
            r is Some ==> Some(r->Some_0@) == self@.angle_cosine(rhs@, own@, other@),
    {
        let product: Scalar = own.mul(other);
        if product.is_zero() {
            None
        } else {
            Some(self.dot(rhs).div(&product))
        }
    }

    /// The vector of length one along this one, from this one's length, which
    /// the caller has computed. The zero vector stays as it is.
    pub fn hat(&self, magnitude: &Scalar) -> (r: Vector2)
        requires
            self@ != RealVec2::zero() ==> magnitude@ != 0real,
        ensures
            r@ == self@.hat(magnitude@),
    {
        if self.x.is_zero() && self.y.is_zero() {
            self.clone()
        } else {
            self.div(magnitude)
        }
    }

    /// The square of the distance to `other`.
    pub fn dist_squared_to(&self, other: &Vector2) -> (r: Scalar)
        ensures
            r@ == self@.sub(other@).norm_squared(),
    {
        self.sub(other).magnitude_squared()
    }
}

/// A factor multiplied into the two products of each component of a cross
/// product: what both laws of scaling rest on.
proof fn lemma_cross_terms_scale(a: RealVec3, b: RealVec3, k: real)
    ensures
        a.cross(b.scale(k)) == a.cross(b).scale(k),
        a.scale(k).cross(b) == a.cross(b).scale(k),
{
    lemma_distribute2(k, a.y * b.z, a.z * b.y);
    lemma_distribute2(k, a.z * b.x, a.x * b.z);
    lemma_distribute2(k, a.x * b.y, a.y * b.x);
    lemma_product3(a.y, b.z, k);
    lemma_product3(a.z, b.y, k);
    lemma_product3(a.z, b.x, k);
    lemma_product3(a.x, b.z, k);
    lemma_product3(a.x, b.y, k);
    lemma_product3(a.y, b.x, k);
}

/// Scaling the right operand of a cross product scales the product by the same factor.
pub proof fn lemma_cross_scales_right(a: RealVec3, b: RealVec3, k: real)
    ensures
        a.cross(b.scale(k)) == a.cross(b).scale(k),
{
    lemma_cross_terms_scale(a, b, k);
}

/// Scaling the left operand of a cross product scales the product by the same factor.
pub proof fn lemma_cross_scales_left(a: RealVec3, b: RealVec3, k: real)
    ensures
        a.scale(k).cross(b) == a.cross(b).scale(k),
{
    lemma_cross_terms_scale(a, b, k);
}

/// Swapping the operands of a cross product negates it.
pub proof fn lemma_cross_anticommutes(a: RealVec3, b: RealVec3)
    ensures
        b.cross(a) == a.cross(b).neg(),
{
    assert(b.y * a.z - b.z * a.y == -(a.y * b.z - a.z * b.y)) by (nonlinear_arith);
    assert(b.z * a.x - b.x * a.z == -(a.z * b.x - a.x * b.z)) by (nonlinear_arith);
    assert(b.x * a.y - b.y * a.x == -(a.x * b.y - a.y * b.x)) by (nonlinear_arith);
}

/// A cross product is orthogonal to both of its operands.
pub proof fn lemma_cross_orthogonal(a: RealVec3, b: RealVec3)
    ensures
        a.dot(a.cross(b)) == 0real,
        b.dot(a.cross(b)) == 0real,
{
    lemma_distribute2(a.x, a.y * b.z, a.z * b.y);
    lemma_distribute2(a.y, a.z * b.x, a.x * b.z);
    lemma_distribute2(a.z, a.x * b.y, a.y * b.x);
    lemma_product3(a.x, a.y, b.z);
    lemma_product3(a.x, a.z, b.y);
    lemma_product3(a.y, a.z, b.x);
    lemma_distribute2(b.x, a.y * b.z, a.z * b.y);
    lemma_distribute2(b.y, a.z * b.x, a.x * b.z);
    lemma_distribute2(b.z, a.x * b.y, a.y * b.x);
    lemma_product3(b.x, a.y, b.z);
    lemma_product3(b.x, a.z, b.y);
    lemma_product3(b.y, a.x, b.z);
}

/// The three unit vectors along the axes are orthogonal, and each is the cross
/// product of the two before it, in the order x, y, z.
pub proof fn lemma_basis_vectors()
    ensures
        RealVec3::i_hat().dot(RealVec3::j_hat()) == 0real,
        RealVec3::j_hat().dot(RealVec3::k_hat()) == 0real,
        RealVec3::k_hat().dot(RealVec3::i_hat()) == 0real,
        RealVec3::i_hat().cross(RealVec3::j_hat()) == RealVec3::k_hat(),
        RealVec3::j_hat().cross(RealVec3::k_hat()) == RealVec3::i_hat(),
        RealVec3::k_hat().cross(RealVec3::i_hat()) == RealVec3::j_hat(),
        RealVec3::j_hat().cross(RealVec3::i_hat()) == RealVec3::k_hat().neg(),
{
}

/// The dot product is linear in each operand: a factor of an operand is a
/// factor of the product.
pub proof fn lemma_dot_scales(a: RealVec3, b: RealVec3, k: real)
    ensures
        a.scale(k).dot(b) == a.dot(b) * k,
        a.dot(b.scale(k)) == a.dot(b) * k,
{
    lemma_distribute3(k, a.x * b.x, a.y * b.y, a.z * b.z);
    lemma_product3(a.x, b.x, k);
    lemma_product3(a.y, b.y, k);
    lemma_product3(a.z, b.z, k);
}

/// The dot product distributes over a sum in its right operand.
pub proof fn lemma_dot_adds(a: RealVec3, b: RealVec3, c: RealVec3)
    ensures
        a.dot(b.add(c)) == a.dot(b) + a.dot(c),
        a.dot(b.sub(c)) == a.dot(b) - a.dot(c),
{
    lemma_distribute2(a.x, b.x, c.x);
    lemma_distribute2(a.y, b.y, c.y);
    lemma_distribute2(a.z, b.z, c.z);
}

/// The absolute value of a real number.
pub open spec fn real_abs(k: real) -> real {
    if k < 0real {
        -k
    } else {
        k
    }
}

/// The square of the length of a vector is not negative, and it is zero just
/// for the zero vector; so the length of a vector other than zero is not zero.
pub proof fn lemma_norm_positive(v: RealVec3, m: real)
    ensures
        v.norm_squared() >= 0real,
        v.norm_squared() == 0real <==> v == RealVec3::zero(),
        v.has_length(m) ==> (m == 0real <==> v == RealVec3::zero()),
{
    lemma_square(v.x);
    lemma_square(v.y);
    lemma_square(v.z);
    lemma_square(m);
}

/// The zero vector stays the zero vector under `hat`, and a vector other than
/// zero, divided by its length, has length one.
pub proof fn lemma_hat_length(v: RealVec3, m: real)
    requires
        v.has_length(m),
    ensures
        v == RealVec3::zero() ==> v.hat(m) == RealVec3::zero(),
        v != RealVec3::zero() ==> v.hat(m).has_length(1real),
{
    if v != RealVec3::zero() {
        lemma_norm_positive(v, m);
        lemma_square_of_quotient(v.x, m);
        lemma_square_of_quotient(v.y, m);
        lemma_square_of_quotient(v.z, m);
        lemma_sum_of_quotients(v.x * v.x, v.y * v.y, v.z * v.z, m * m);
        lemma_divide_by_itself(m * m);
        lemma_zero_one(1real);
    }
}

/// A vector brought to the magnitude `k` has the length `|k|`; the zero
/// vector stays the zero vector, whatever `k` is.
pub proof fn lemma_with_magnitude_length(v: RealVec3, k: real, m: real)
    requires
        v.has_length(m),
    ensures
        v == RealVec3::zero() ==> v.with_magnitude(k, m) == RealVec3::zero(),
        v != RealVec3::zero() ==> v.with_magnitude(k, m).has_length(real_abs(k)),
{
    lemma_norm_positive(v, m);
    if v != RealVec3::zero() {
        lemma_square_of_quotient(v.x * k, m);
        lemma_square_of_quotient(v.y * k, m);
        lemma_square_of_quotient(v.z * k, m);
        lemma_square_of_product(v.x, k);
        lemma_square_of_product(v.y, k);
        lemma_square_of_product(v.z, k);
        lemma_sum_of_quotients(
            (v.x * v.x) * (k * k),
            (v.y * v.y) * (k * k),
            (v.z * v.z) * (k * k),
            m * m,
        );
        lemma_distribute3(k * k, v.x * v.x, v.y * v.y, v.z * v.z);
        lemma_commute(k * k, m * m);
        lemma_multiply_divide(k * k, m * m);
        assert(real_abs(k) * real_abs(k) == k * k) by (nonlinear_arith)
            requires
                real_abs(k) == k || real_abs(k) == -k,
        ;
    }
}

/// The cosine of the angle between a vector other than zero and itself is
/// one, and no cosine exists of an angle with the zero vector.
pub proof fn lemma_angle_cosine_edges(v: RealVec3, m: real, zero_length: real)
    requires
        v.has_length(m),
        RealVec3::zero().has_length(zero_length),
    ensures
        v != RealVec3::zero() ==> v.angle_cosine(v, m, m) == Some(1real),
        v.angle_cosine(RealVec3::zero(), m, zero_length) is None,
        RealVec3::zero().angle_cosine(v, zero_length, m) is None,
{
    lemma_norm_positive(v, m);
    lemma_norm_positive(RealVec3::zero(), zero_length);
    lemma_zero_one(m);
    if v != RealVec3::zero() {
        lemma_square(m);
        lemma_divide_by_itself(m * m);
    }
}

/// The dot product does not depend on the order of its operands.
pub proof fn lemma_dot_commutes(a: RealVec3, b: RealVec3)
    ensures
        a.dot(b) == b.dot(a),
{
    lemma_commute(a.x, b.x);
    lemma_commute(a.y, b.y);
    lemma_commute(a.z, b.z);
}

/// To divide a vector by a number other than zero is to scale it by the
/// reciprocal of the number.
pub proof fn lemma_div_is_scale(v: RealVec3, k: real)
    requires
        k != 0real,
    ensures
        v.div(k) == v.scale(1real / k),
        1real / k != 0real,
{
    lemma_divide_is_scale(v.x, k);
    lemma_divide_is_scale(v.y, k);
    lemma_divide_is_scale(v.z, k);
    lemma_reciprocal(k);
}

/// The cross product distributes over a difference in its right operand, and
/// the cross product of a vector and itself is zero.
pub proof fn lemma_cross_subtracts(a: RealVec3, b: RealVec3, c: RealVec3)
    ensures
        a.cross(b.sub(c)) == a.cross(b).sub(a.cross(c)),
        a.cross(a) == RealVec3::zero(),
{
    lemma_distribute2(a.x, b.y, c.y);
    lemma_distribute2(a.x, b.z, c.z);
    lemma_distribute2(a.y, b.x, c.x);
    lemma_distribute2(a.y, b.z, c.z);
    lemma_distribute2(a.z, b.x, c.x);
    lemma_distribute2(a.z, b.y, c.y);
    lemma_commute(a.x, a.y);
    lemma_commute(a.x, a.z);
    lemma_commute(a.y, a.z);
}

/// A vector brought to a magnitude stays along itself: the result is the
/// vector times the quotient of the magnitude and its own length.
pub proof fn lemma_with_magnitude_parallel(v: RealVec3, k: real, m: real)
    requires
        m != 0real,
    ensures
        v.with_magnitude(k, m) == v.scale(k / m),
{
    lemma_scaled_quotient(v.x, k, m);
    lemma_scaled_quotient(v.y, k, m);
    lemma_scaled_quotient(v.z, k, m);
}

/// A quotient of a product is the product with the quotient.
proof fn lemma_scaled_quotient(a: real, k: real, m: real)
    requires
        m != 0real,
    ensures
        (a * k) / m == a * (k / m),
{
    lemma_divide_is_scale(a * k, m);
    lemma_divide_is_scale(k, m);
    lemma_product3(a, k, 1real / m);
}

/// The dot product of the plane does not depend on the order of its
/// operands, a factor of an operand is a factor of the product, and the
/// product distributes over a sum in its right operand.
pub proof fn lemma_dot2_linear(a: RealVec2, b: RealVec2, c: RealVec2, k: real)
    ensures
        a.dot(b) == b.dot(a),
        a.scale(k).dot(b) == a.dot(b) * k,
        a.dot(b.scale(k)) == a.dot(b) * k,
        a.dot(b.add(c)) == a.dot(b) + a.dot(c),
{
    lemma_commute(a.x, b.x);
    lemma_commute(a.y, b.y);
    lemma_distribute2(k, a.x * b.x, a.y * b.y);
    lemma_product3(a.x, b.x, k);
    lemma_product3(a.y, b.y, k);
    lemma_distribute2(a.x, b.x, c.x);
    lemma_distribute2(a.y, b.y, c.y);
}

} // verus!
