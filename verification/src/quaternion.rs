//! Quaternions with exact components.
use crate::scalar::Scalar;
use crate::utils::real_ring::{
    lemma_commute, lemma_distribute2, lemma_distribute_signed, lemma_divide_is_scale,
    lemma_multiply_divide, lemma_negate_factor, lemma_product3, lemma_reciprocal, lemma_square,
    lemma_square_of_product, lemma_zero_one,
};
use crate::vectors::{lemma_hat_length, lemma_norm_positive, real_abs, RealVec3, Vector3};
use vstd::prelude::*;
use vstd::std_specs::cmp::PartialEqSpecImpl;

verus! {

/// A real quaternion `w + x i + y j + z k`: the mathematical model of `Quaternion`.
pub struct RealQuat {
    pub w: real,
    pub x: real,
    pub y: real,
    pub z: real,
}

impl RealQuat {
    /// The quaternion one, which stands for the rotation that moves nothing.
    pub open spec fn identity() -> RealQuat {
        RealQuat { w: 1real, x: 0real, y: 0real, z: 0real }
    }

    pub open spec fn from_scalar_vector(scalar: real, vector: RealVec3) -> RealQuat {
        RealQuat { w: scalar, x: vector.x, y: vector.y, z: vector.z }
    }

    /// The quaternion with scalar part zero and vector part `vector`.
    pub open spec fn pure(vector: RealVec3) -> RealQuat {
        RealQuat::from_scalar_vector(0real, vector)
    }

    pub open spec fn scalar(self) -> real {
        self.w
    }

    pub open spec fn vector(self) -> RealVec3 {
        RealVec3 { x: self.x, y: self.y, z: self.z }
    }

    pub open spec fn add(self, rhs: RealQuat) -> RealQuat {
        RealQuat { w: self.w + rhs.w, x: self.x + rhs.x, y: self.y + rhs.y, z: self.z + rhs.z }
    }

    pub open spec fn sub(self, rhs: RealQuat) -> RealQuat {
        RealQuat { w: self.w - rhs.w, x: self.x - rhs.x, y: self.y - rhs.y, z: self.z - rhs.z }
    }

    pub open spec fn neg(self) -> RealQuat {
        RealQuat { w: -self.w, x: -self.x, y: -self.y, z: -self.z }
    }

    pub open spec fn scale(self, k: real) -> RealQuat {
        RealQuat { w: self.w * k, x: self.x * k, y: self.y * k, z: self.z * k }
    }

    pub open spec fn div(self, k: real) -> RealQuat {
        RealQuat { w: self.w / k, x: self.x / k, y: self.y / k, z: self.z / k }
    }

    /// The Hamilton product, which does not commute.
    pub open spec fn mul(self, rhs: RealQuat) -> RealQuat {
        RealQuat {
            w: self.w * rhs.w - self.x * rhs.x - self.y * rhs.y - self.z * rhs.z,
            x: self.w * rhs.x + self.x * rhs.w + self.y * rhs.z - self.z * rhs.y,
            y: self.w * rhs.y - self.x * rhs.z + self.y * rhs.w + self.z * rhs.x,
            z: self.w * rhs.z + self.x * rhs.y - self.y * rhs.x + self.z * rhs.w,
        }
    }

    pub open spec fn conjugate(self) -> RealQuat {
        RealQuat { w: self.w, x: -self.x, y: -self.y, z: -self.z }
    }

    /// The dot product of the two as vectors of four-space.
    pub open spec fn dot(self, rhs: RealQuat) -> real {
        self.w * rhs.w + self.x * rhs.x + self.y * rhs.y + self.z * rhs.z
    }

    /// The square of the norm.
    pub open spec fn norm_squared(self) -> real {
        self.dot(self)
    }

    /// The multiplicative inverse; it is meaningful for a quaternion other than zero.
    pub open spec fn inverse(self) -> RealQuat {
        self.conjugate().div(self.norm_squared())
    }

    /// The quaternion divided by `norm`; the quaternion one where `norm` is
    /// zero. With the quaternion's norm for `norm` this is the quaternion of
    /// norm one along it.
    pub open spec fn hat(self, norm: real) -> RealQuat {
        if norm == 0real {
            RealQuat::identity()
        } else {
            self.div(norm)
        }
    }

    /// The quaternion `half_cos + half_sin u`, where `u` is `rvec` divided by
    /// `theta`; the quaternion one where `theta` is under `small_angle`. With
    /// the length of `rvec` for `theta`, and the cosine and the sine of half of
    /// it, this is the quaternion of the rotation about `rvec` by the angle `theta`.
    pub open spec fn from_rotation_vector(
        rvec: RealVec3,
        theta: real,
        half_cos: real,
        half_sin: real,
    ) -> RealQuat {
        if real_abs(theta) < small_angle() {
            RealQuat::identity()
        } else {
            RealQuat::from_scalar_vector(half_cos, rvec.hat(theta).scale(half_sin))
        }
    }

    /// The quotient `sin x / x` near zero by the first terms of its series,
    /// from the square of `x`.
    pub open spec fn sinc_series(x_squared: real) -> real {
        1real - x_squared / 6real + (x_squared * x_squared) / 120real
    }

    /// The quaternion with the scalar part `scalar_exp axial_cos` and the
    /// vector part `scalar_exp sinc v`, for the vector part `v` of this one,
    /// where `sinc` is `axial_sinc`, but `sinc_series` where the length of
    /// `v` is under `small_angle`. With `e^w`, `cos |v|` and `sin |v| / |v|`
    /// handed in, this is the exponential of the quaternion.
    pub open spec fn exp(self, scalar_exp: real, axial_cos: real, axial_sinc: real) -> RealQuat {
        let n = self.vector().norm_squared();
        let sinc = if n < small_angle() * small_angle() {
            RealQuat::sinc_series(n)
        } else {
            axial_sinc
        };
        RealQuat::from_scalar_vector(
            axial_cos * scalar_exp,
            self.vector().scale(sinc).scale(scalar_exp),
        )
    }
}

/// The angle, in radians, under which a rotation vector stands for no
/// rotation at all: `1e-9`.
pub open spec fn small_angle() -> real {
    1real / 1_000_000_000real
}

/// Computes `small_angle`.
pub fn small_angle_value() -> (r: Scalar)
    ensures
        r@ == small_angle(),
{
    Scalar::one().div(&Scalar::from_int(1_000_000_000))
}

/// The product of two quaternions has the scalar part `w1 w2 - v1 . v2` and the
/// vector part `w1 v2 + w2 v1 + v1 x v2`.
pub proof fn lemma_mul_scalar_vector_form(a: RealQuat, b: RealQuat)
    ensures
        a.mul(b).scalar() == a.w * b.w - a.vector().dot(b.vector()),
        a.mul(b).vector() == b.vector().scale(a.w).add(a.vector().scale(b.w)).add(
            a.vector().cross(b.vector()),
        ),
{
    assert(b.x * a.w == a.w * b.x) by (nonlinear_arith);
    assert(b.y * a.w == a.w * b.y) by (nonlinear_arith);
    assert(b.z * a.w == a.w * b.z) by (nonlinear_arith);
}

#[derive(Debug)]
pub struct Quaternion {
    pub w: Scalar,
    pub x: Scalar,
    pub y: Scalar,
    pub z: Scalar,
}

impl View for Quaternion {
    type V = RealQuat;

    open spec fn view(&self) -> RealQuat {
        RealQuat { w: self.w@, x: self.x@, y: self.y@, z: self.z@ }
    }
}

impl Clone for Quaternion {
    fn clone(&self) -> (r: Self)
        ensures
            r@ == self@,
    {
        Quaternion {
            w: self.w.clone(),
            x: self.x.clone(),
            y: self.y.clone(),
            z: self.z.clone(),
        }
    }
}

impl Default for Quaternion {
    fn default() -> (r: Quaternion)
        ensures
            r@ == RealQuat::identity(),
    {
        Quaternion::new(Scalar::one(), Scalar::zero(), Scalar::zero(), Scalar::zero())
    }
}

impl PartialEq for Quaternion {
    /// Two quaternions are equal when their components are the same numbers.
    fn eq(&self, other: &Self) -> (r: bool) {
        self.w.equals(&other.w) && self.x.equals(&other.x) && self.y.equals(&other.y)
            && self.z.equals(&other.z)
    }
}

impl PartialEqSpecImpl for Quaternion {
    open spec fn obeys_eq_spec() -> bool {
        true
    }

    open spec fn eq_spec(&self, other: &Self) -> bool {
        self@ == other@
    }
}

impl Quaternion {
    pub fn new(w: Scalar, x: Scalar, y: Scalar, z: Scalar) -> (r: Quaternion)
        ensures
            r@ == (RealQuat { w: w@, x: x@, y: y@, z: z@ }),
    {
        Quaternion { w, x, y, z }
    }

    pub fn from_scalar_vector(scalar: Scalar, vector: Vector3) -> (r: Quaternion)
        ensures
            r@ == RealQuat::from_scalar_vector(scalar@, vector@),
    {
        Quaternion::new(scalar, vector.x, vector.y, vector.z)
    }

    pub fn get_scalar(&self) -> (r: Scalar)
        ensures
            r@ == self@.scalar(),
    {
        self.w.clone()
    }

    pub fn get_vector(&self) -> (r: Vector3)
        ensures
            r@ == self@.vector(),
    {
        Vector3::new(self.x.clone(), self.y.clone(), self.z.clone())
    }

    pub fn add(&self, rhs: &Quaternion) -> (r: Quaternion)
        ensures
            r@ == self@.add(rhs@),
    {
        Quaternion {
            w: self.w.add(&rhs.w),
            x: self.x.add(&rhs.x),
            y: self.y.add(&rhs.y),
            z: self.z.add(&rhs.z),
        }
    }

    pub fn sub(&self, rhs: &Quaternion) -> (r: Quaternion)
        ensures
            r@ == self@.sub(rhs@),
    {
        Quaternion {
            w: self.w.sub(&rhs.w),
            x: self.x.sub(&rhs.x),
            y: self.y.sub(&rhs.y),
            z: self.z.sub(&rhs.z),
        }
    }

    /// The quaternion with every component multiplied by `k`.
    pub fn scale(&self, k: &Scalar) -> (r: Quaternion)
        ensures
            r@ == self@.scale(k@),
    {
        Quaternion { w: self.w.mul(k), x: self.x.mul(k), y: self.y.mul(k), z: self.z.mul(k) }
    }

    /// The quaternion with every component divided by `k`, which is not zero.
    pub fn div(&self, k: &Scalar) -> (r: Quaternion)
        requires
            k@ != 0real,
        ensures
            r@ == self@.div(k@),
    {
        Quaternion { w: self.w.div(k), x: self.x.div(k), y: self.y.div(k), z: self.z.div(k) }
    }

    /// The Hamilton product `self * rhs`.
    pub fn mul(&self, rhs: &Quaternion) -> (r: Quaternion)
        ensures
            r@ == self@.mul(rhs@),
    {
        let left: Vector3 = self.get_vector();
        let right: Vector3 = rhs.get_vector();
        let v: Vector3 = right.scale(&self.w).add(&left.scale(&rhs.w)).add(&left.cross(&right));
        let w: Scalar = self.w.mul(&rhs.w).sub(&left.dot(&right));
        proof {
            lemma_mul_scalar_vector_form(self@, rhs@);
        }
        Quaternion { w, x: v.x, y: v.y, z: v.z }
    }

    pub fn dot(&self, rhs: &Quaternion) -> (r: Scalar)
        ensures
            r@ == self@.dot(rhs@),
    {
        let ww: Scalar = self.w.mul(&rhs.w);
        let xx: Scalar = self.x.mul(&rhs.x);
        let yy: Scalar = self.y.mul(&rhs.y);
        let zz: Scalar = self.z.mul(&rhs.z);
        ww.add(&xx).add(&yy).add(&zz)
    }

    /// The square of the norm.
    pub fn norm_squared(&self) -> (r: Scalar)
        ensures
            r@ == self@.norm_squared(),
    {
        self.dot(self)
    }

    pub fn conjugate(&self) -> (r: Quaternion)
        ensures
            r@ == self@.conjugate(),
    {
        Quaternion::new(self.w.clone(), self.x.neg(), self.y.neg(), self.z.neg())
    }

    /// The quaternion of norm one along this one, from this one's norm,
    /// which the caller has computed. Where the norm is zero the result is
    /// the quaternion one.
    pub fn hat(&self, norm: &Scalar) -> (r: Quaternion)
        ensures
            r@ == self@.hat(norm@),
    {
        if norm.is_zero() {
            Quaternion::default()
        } else {
            self.div(norm)
        }
    }

    /// The quaternion of the rotation about the axis along `rvec` by the
    /// angle `theta`, which is the length of `rvec`, from the cosine and the
    /// sine of half that angle; the caller has computed the three. For an
    /// angle under `small_angle` the result is the quaternion one.
    pub fn from_rotation_vector(
        rvec: &Vector3,
        theta: &Scalar,
        half_cos: &Scalar,
        half_sin: &Scalar,
    ) -> (r: Quaternion)
        ensures
            r@ == RealQuat::from_rotation_vector(rvec@, theta@, half_cos@, half_sin@),
    {
        let size: Scalar = if theta.is_negative() {
            theta.neg()
        } else {
            theta.clone()
        };
        if size.less_than(&small_angle_value()) {
            Quaternion::default()
        } else {
            Quaternion::from_scalar_vector(half_cos.clone(), rvec.hat(theta).scale(half_sin))
        }
    }

    /// The exponential of the quaternion `w + v`, which is
    /// `e^w (cos |v| + v sin |v| / |v|)`, from `e^w`, `cos |v|` and
    /// `sin |v| / |v|`, which the caller has computed. Where `|v|` is under
    /// `small_angle` the last of them is not used: the quotient is taken from
    /// its series instead.
    pub fn exp(
        &self,
        scalar_exp: &Scalar,
        axial_cos: &Scalar,
        axial_sinc: &Scalar,
    ) -> (r: Quaternion)
        ensures
            r@ == self@.exp(scalar_exp@, axial_cos@, axial_sinc@),
    {
        let axis: Vector3 = self.get_vector();
        let n: Scalar = axis.magnitude_squared();
        let bound: Scalar = small_angle_value();
        let sinc: Scalar = if n.less_than(&bound.mul(&bound)) {
            let sixth: Scalar = n.div(&Scalar::from_int(6));
            let last: Scalar = n.mul(&n).div(&Scalar::from_int(120));
            Scalar::one().sub(&sixth).add(&last)
        } else {
            axial_sinc.clone()
        };
        Quaternion::from_scalar_vector(
            axial_cos.mul(scalar_exp),
            axis.scale(&sinc).scale(scalar_exp),
        )
    }

    /// The multiplicative inverse of a quaternion other than zero.
    pub fn inverse(&self) -> (r: Quaternion)
        requires
            self@.norm_squared() != 0real,
        ensures
            r@ == self@.inverse(),
    {
        let n: Scalar = self.dot(self);
        self.conjugate().div(&n)
    }
}

proof fn lemma_mul_associative_w(a: RealQuat, b: RealQuat, c: RealQuat)
    ensures
        a.mul(b).mul(c).w == a.mul(b.mul(c)).w,
{
    lemma_distribute_signed(c.w, a.w * b.w, a.x * b.x, a.y * b.y, a.z * b.z);
    lemma_product3(a.w, b.w, c.w);
    lemma_product3(a.x, b.x, c.w);
    lemma_product3(a.y, b.y, c.w);
    lemma_product3(a.z, b.z, c.w);
    lemma_distribute_signed(c.x, a.w * b.x, a.x * b.w, a.y * b.z, a.z * b.y);
    lemma_product3(a.w, b.x, c.x);
    lemma_product3(a.x, b.w, c.x);
    lemma_product3(a.y, b.z, c.x);
    lemma_product3(a.z, b.y, c.x);
    lemma_distribute_signed(c.y, a.w * b.y, a.x * b.z, a.y * b.w, a.z * b.x);
    lemma_product3(a.w, b.y, c.y);
    lemma_product3(a.x, b.z, c.y);
    lemma_product3(a.y, b.w, c.y);
    lemma_product3(a.z, b.x, c.y);
    lemma_distribute_signed(c.z, a.w * b.z, a.x * b.y, a.y * b.x, a.z * b.w);
    lemma_product3(a.w, b.z, c.z);
    lemma_product3(a.x, b.y, c.z);
    lemma_product3(a.y, b.x, c.z);
    lemma_product3(a.z, b.w, c.z);
    lemma_distribute_signed(a.w, b.w * c.w, b.x * c.x, b.y * c.y, b.z * c.z);
    lemma_distribute_signed(a.x, b.w * c.x, b.x * c.w, b.y * c.z, b.z * c.y);
    lemma_distribute_signed(a.y, b.w * c.y, b.x * c.z, b.y * c.w, b.z * c.x);
    lemma_distribute_signed(a.z, b.w * c.z, b.x * c.y, b.y * c.x, b.z * c.w);
}

proof fn lemma_mul_associative_x(a: RealQuat, b: RealQuat, c: RealQuat)
    ensures
        a.mul(b).mul(c).x == a.mul(b.mul(c)).x,
{
    lemma_distribute_signed(c.x, a.w * b.w, a.x * b.x, a.y * b.y, a.z * b.z);
    lemma_product3(a.w, b.w, c.x);
    lemma_product3(a.x, b.x, c.x);
    lemma_product3(a.y, b.y, c.x);
    lemma_product3(a.z, b.z, c.x);
    lemma_distribute_signed(c.w, a.w * b.x, a.x * b.w, a.y * b.z, a.z * b.y);
    lemma_product3(a.w, b.x, c.w);
    lemma_product3(a.x, b.w, c.w);
    lemma_product3(a.y, b.z, c.w);
    lemma_product3(a.z, b.y, c.w);
    lemma_distribute_signed(c.z, a.w * b.y, a.x * b.z, a.y * b.w, a.z * b.x);
    lemma_product3(a.w, b.y, c.z);
    lemma_product3(a.x, b.z, c.z);
    lemma_product3(a.y, b.w, c.z);
    lemma_product3(a.z, b.x, c.z);
    lemma_distribute_signed(c.y, a.w * b.z, a.x * b.y, a.y * b.x, a.z * b.w);
    lemma_product3(a.w, b.z, c.y);
    lemma_product3(a.x, b.y, c.y);
    lemma_product3(a.y, b.x, c.y);
    lemma_product3(a.z, b.w, c.y);
    lemma_distribute_signed(a.w, b.w * c.x, b.x * c.w, b.y * c.z, b.z * c.y);
    lemma_distribute_signed(a.x, b.w * c.w, b.x * c.x, b.y * c.y, b.z * c.z);
    lemma_distribute_signed(a.y, b.w * c.z, b.x * c.y, b.y * c.x, b.z * c.w);
    lemma_distribute_signed(a.z, b.w * c.y, b.x * c.z, b.y * c.w, b.z * c.x);
}

proof fn lemma_mul_associative_y(a: RealQuat, b: RealQuat, c: RealQuat)
    ensures
        a.mul(b).mul(c).y == a.mul(b.mul(c)).y,
{
    lemma_distribute_signed(c.y, a.w * b.w, a.x * b.x, a.y * b.y, a.z * b.z);
    lemma_product3(a.w, b.w, c.y);
    lemma_product3(a.x, b.x, c.y);
    lemma_product3(a.y, b.y, c.y);
    lemma_product3(a.z, b.z, c.y);
    lemma_distribute_signed(c.z, a.w * b.x, a.x * b.w, a.y * b.z, a.z * b.y);
    lemma_product3(a.w, b.x, c.z);
    lemma_product3(a.x, b.w, c.z);
    lemma_product3(a.y, b.z, c.z);
    lemma_product3(a.z, b.y, c.z);
    lemma_distribute_signed(c.w, a.w * b.y, a.x * b.z, a.y * b.w, a.z * b.x);
    lemma_product3(a.w, b.y, c.w);
    lemma_product3(a.x, b.z, c.w);
    lemma_product3(a.y, b.w, c.w);
    lemma_product3(a.z, b.x, c.w);
    lemma_distribute_signed(c.x, a.w * b.z, a.x * b.y, a.y * b.x, a.z * b.w);
    lemma_product3(a.w, b.z, c.x);
    lemma_product3(a.x, b.y, c.x);
    lemma_product3(a.y, b.x, c.x);
    lemma_product3(a.z, b.w, c.x);
    lemma_distribute_signed(a.w, b.w * c.y, b.x * c.z, b.y * c.w, b.z * c.x);
    lemma_distribute_signed(a.x, b.w * c.z, b.x * c.y, b.y * c.x, b.z * c.w);
    lemma_distribute_signed(a.y, b.w * c.w, b.x * c.x, b.y * c.y, b.z * c.z);
    lemma_distribute_signed(a.z, b.w * c.x, b.x * c.w, b.y * c.z, b.z * c.y);
}

proof fn lemma_mul_associative_z(a: RealQuat, b: RealQuat, c: RealQuat)
    ensures
        a.mul(b).mul(c).z == a.mul(b.mul(c)).z,
{
    lemma_distribute_signed(c.z, a.w * b.w, a.x * b.x, a.y * b.y, a.z * b.z);
    lemma_product3(a.w, b.w, c.z);
    lemma_product3(a.x, b.x, c.z);
    lemma_product3(a.y, b.y, c.z);
    lemma_product3(a.z, b.z, c.z);
    lemma_distribute_signed(c.y, a.w * b.x, a.x * b.w, a.y * b.z, a.z * b.y);
    lemma_product3(a.w, b.x, c.y);
    lemma_product3(a.x, b.w, c.y);
    lemma_product3(a.y, b.z, c.y);
    lemma_product3(a.z, b.y, c.y);
    lemma_distribute_signed(c.x, a.w * b.y, a.x * b.z, a.y * b.w, a.z * b.x);
    lemma_product3(a.w, b.y, c.x);
    lemma_product3(a.x, b.z, c.x);
    lemma_product3(a.y, b.w, c.x);
    lemma_product3(a.z, b.x, c.x);
    lemma_distribute_signed(c.w, a.w * b.z, a.x * b.y, a.y * b.x, a.z * b.w);
    lemma_product3(a.w, b.z, c.w);
    lemma_product3(a.x, b.y, c.w);
    lemma_product3(a.y, b.x, c.w);
    lemma_product3(a.z, b.w, c.w);
    lemma_distribute_signed(a.w, b.w * c.z, b.x * c.y, b.y * c.x, b.z * c.w);
    lemma_distribute_signed(a.x, b.w * c.y, b.x * c.z, b.y * c.w, b.z * c.x);
    lemma_distribute_signed(a.y, b.w * c.x, b.x * c.w, b.y * c.z, b.z * c.y);
    lemma_distribute_signed(a.z, b.w * c.w, b.x * c.x, b.y * c.y, b.z * c.z);
}

/// The Hamilton product is associative.
pub proof fn lemma_mul_associative(a: RealQuat, b: RealQuat, c: RealQuat)
    ensures
        a.mul(b).mul(c) == a.mul(b.mul(c)),
{
    lemma_mul_associative_w(a, b, c);
    lemma_mul_associative_x(a, b, c);
    lemma_mul_associative_y(a, b, c);
    lemma_mul_associative_z(a, b, c);
}

/// Scaling the left factor of a product scales the product.
pub proof fn lemma_mul_scale_left(a: RealQuat, b: RealQuat, k: real)
    ensures
        a.scale(k).mul(b) == a.mul(b).scale(k),
{
    lemma_distribute_signed(k, a.w * b.w, a.x * b.x, a.y * b.y, a.z * b.z);
    lemma_product3(a.w, b.w, k);
    lemma_product3(a.x, b.x, k);
    lemma_product3(a.y, b.y, k);
    lemma_product3(a.z, b.z, k);
    lemma_distribute_signed(k, a.w * b.x, a.x * b.w, a.y * b.z, a.z * b.y);
    lemma_product3(a.w, b.x, k);
    lemma_product3(a.x, b.w, k);
    lemma_product3(a.y, b.z, k);
    lemma_product3(a.z, b.y, k);
    lemma_distribute_signed(k, a.w * b.y, a.x * b.z, a.y * b.w, a.z * b.x);
    lemma_product3(a.w, b.y, k);
    lemma_product3(a.x, b.z, k);
    lemma_product3(a.y, b.w, k);
    lemma_product3(a.z, b.x, k);
    lemma_distribute_signed(k, a.w * b.z, a.x * b.y, a.y * b.x, a.z * b.w);
    lemma_product3(a.w, b.z, k);
    lemma_product3(a.x, b.y, k);
    lemma_product3(a.y, b.x, k);
    lemma_product3(a.z, b.w, k);
}

/// Scaling the right factor of a product scales the product.
pub proof fn lemma_mul_scale_right(a: RealQuat, b: RealQuat, k: real)
    ensures
        a.mul(b.scale(k)) == a.mul(b).scale(k),
{
    lemma_distribute_signed(k, a.w * b.w, a.x * b.x, a.y * b.y, a.z * b.z);
    lemma_product3(a.w, b.w, k);
    lemma_product3(a.x, b.x, k);
    lemma_product3(a.y, b.y, k);
    lemma_product3(a.z, b.z, k);
    lemma_distribute_signed(k, a.w * b.x, a.x * b.w, a.y * b.z, a.z * b.y);
    lemma_product3(a.w, b.x, k);
    lemma_product3(a.x, b.w, k);
    lemma_product3(a.y, b.z, k);
    lemma_product3(a.z, b.y, k);
    lemma_distribute_signed(k, a.w * b.y, a.x * b.z, a.y * b.w, a.z * b.x);
    lemma_product3(a.w, b.y, k);
    lemma_product3(a.x, b.z, k);
    lemma_product3(a.y, b.w, k);
    lemma_product3(a.z, b.x, k);
    lemma_distribute_signed(k, a.w * b.z, a.x * b.y, a.y * b.x, a.z * b.w);
    lemma_product3(a.w, b.z, k);
    lemma_product3(a.x, b.y, k);
    lemma_product3(a.y, b.x, k);
    lemma_product3(a.z, b.w, k);
}

/// Negating a factor of a product negates the product.
pub proof fn lemma_mul_neg(a: RealQuat, b: RealQuat)
    ensures
        a.neg().mul(b) == a.mul(b).neg(),
        a.mul(b.neg()) == a.mul(b).neg(),
{
    lemma_negate_factor(a.w, b.w);
    lemma_negate_factor(a.x, b.x);
    lemma_negate_factor(a.y, b.y);
    lemma_negate_factor(a.z, b.z);
    lemma_negate_factor(a.w, b.x);
    lemma_negate_factor(a.x, b.w);
    lemma_negate_factor(a.y, b.z);
    lemma_negate_factor(a.z, b.y);
    lemma_negate_factor(a.w, b.y);
    lemma_negate_factor(a.x, b.z);
    lemma_negate_factor(a.y, b.w);
    lemma_negate_factor(a.z, b.x);
    lemma_negate_factor(a.w, b.z);
    lemma_negate_factor(a.x, b.y);
    lemma_negate_factor(a.y, b.x);
    lemma_negate_factor(a.z, b.w);
}

/// The product distributes over a sum in its right factor.
pub proof fn lemma_mul_add_right(a: RealQuat, b: RealQuat, c: RealQuat)
    ensures
        a.mul(b.add(c)) == a.mul(b).add(a.mul(c)),
{
    lemma_distribute2(a.w, b.w, c.w);
    lemma_distribute2(a.x, b.x, c.x);
    lemma_distribute2(a.y, b.y, c.y);
    lemma_distribute2(a.z, b.z, c.z);
    lemma_distribute2(a.w, b.x, c.x);
    lemma_distribute2(a.x, b.w, c.w);
    lemma_distribute2(a.y, b.z, c.z);
    lemma_distribute2(a.z, b.y, c.y);
    lemma_distribute2(a.w, b.y, c.y);
    lemma_distribute2(a.x, b.z, c.z);
    lemma_distribute2(a.y, b.w, c.w);
    lemma_distribute2(a.z, b.x, c.x);
    lemma_distribute2(a.w, b.z, c.z);
    lemma_distribute2(a.x, b.y, c.y);
    lemma_distribute2(a.y, b.x, c.x);
    lemma_distribute2(a.z, b.w, c.w);
}

/// The product distributes over a sum in its left factor.
pub proof fn lemma_mul_add_left(a: RealQuat, b: RealQuat, c: RealQuat)
    ensures
        a.add(b).mul(c) == a.mul(c).add(b.mul(c)),
{
    lemma_distribute2(c.w, a.w, b.w);
    lemma_distribute2(c.x, a.x, b.x);
    lemma_distribute2(c.y, a.y, b.y);
    lemma_distribute2(c.z, a.z, b.z);
    lemma_distribute2(c.x, a.w, b.w);
    lemma_distribute2(c.w, a.x, b.x);
    lemma_distribute2(c.z, a.y, b.y);
    lemma_distribute2(c.y, a.z, b.z);
    lemma_distribute2(c.y, a.w, b.w);
    lemma_distribute2(c.z, a.x, b.x);
    lemma_distribute2(c.w, a.y, b.y);
    lemma_distribute2(c.x, a.z, b.z);
    lemma_distribute2(c.z, a.w, b.w);
    lemma_distribute2(c.y, a.x, b.x);
    lemma_distribute2(c.x, a.y, b.y);
    lemma_distribute2(c.w, a.z, b.z);
}


/// The quaternion one is neutral for the product.
pub proof fn lemma_mul_identity(a: RealQuat)
    ensures
        RealQuat::identity().mul(a) == a,
        a.mul(RealQuat::identity()) == a,
{
    lemma_zero_one(a.w);
    lemma_zero_one(a.x);
    lemma_zero_one(a.y);
    lemma_zero_one(a.z);
}

/// A quaternion times its conjugate, in either order, is the square of its norm.
pub proof fn lemma_mul_conjugate(q: RealQuat)
    ensures
        q.mul(q.conjugate()) == RealQuat::from_scalar_vector(
            q.norm_squared(),
            RealVec3::zero(),
        ),
        q.conjugate().mul(q) == RealQuat::from_scalar_vector(
            q.norm_squared(),
            RealVec3::zero(),
        ),
{
    lemma_negate_factor(q.w, q.x);
    lemma_negate_factor(q.w, q.y);
    lemma_negate_factor(q.w, q.z);
    lemma_negate_factor(q.x, q.w);
    lemma_negate_factor(q.x, q.x);
    lemma_negate_factor(q.x, q.y);
    lemma_negate_factor(q.x, q.z);
    lemma_negate_factor(q.y, q.w);
    lemma_negate_factor(q.y, q.x);
    lemma_negate_factor(q.y, q.y);
    lemma_negate_factor(q.y, q.z);
    lemma_negate_factor(q.z, q.w);
    lemma_negate_factor(q.z, q.x);
    lemma_negate_factor(q.z, q.y);
    lemma_negate_factor(q.z, q.z);
    lemma_commute(q.w, q.x);
    lemma_commute(q.w, q.y);
    lemma_commute(q.w, q.z);
    lemma_commute(q.x, q.y);
    lemma_commute(q.x, q.z);
    lemma_commute(q.y, q.z);
}

/// The inverse is the conjugate, scaled by the reciprocal of the square of the norm.
pub proof fn lemma_inverse_is_scaled_conjugate(q: RealQuat)
    requires
        q.norm_squared() != 0real,
    ensures
        q.inverse() == q.conjugate().scale(1real / q.norm_squared()),
{
    let n = q.norm_squared();
    lemma_divide_is_scale(q.w, n);
    lemma_divide_is_scale(-q.x, n);
    lemma_divide_is_scale(-q.y, n);
    lemma_divide_is_scale(-q.z, n);
}

/// A quaternion other than zero times its inverse, in either order, is one.
pub proof fn lemma_mul_inverse(q: RealQuat)
    requires
        q.norm_squared() != 0real,
    ensures
        q.mul(q.inverse()) == RealQuat::identity(),
        q.inverse().mul(q) == RealQuat::identity(),
{
    let n = q.norm_squared();
    let s = 1real / n;
    lemma_inverse_is_scaled_conjugate(q);
    lemma_mul_scale_right(q, q.conjugate(), s);
    lemma_mul_scale_left(q.conjugate(), q, s);
    lemma_mul_conjugate(q);
    lemma_reciprocal(n);
    lemma_zero_one(s);
}

/// The inverse of a quaternion other than zero is other than zero: the square
/// of its norm is the reciprocal of the square of the norm of the quaternion.
pub proof fn lemma_inverse_norm(q: RealQuat)
    requires
        q.norm_squared() != 0real,
    ensures
        q.inverse().norm_squared() == 1real / q.norm_squared(),
        q.inverse().norm_squared() != 0real,
{
    let n = q.norm_squared();
    let s = 1real / n;
    lemma_inverse_is_scaled_conjugate(q);
    lemma_reciprocal(n);
    lemma_square_of_product(q.w, s);
    lemma_square_of_product(-q.x, s);
    lemma_square_of_product(-q.y, s);
    lemma_square_of_product(-q.z, s);
    lemma_negate_factor(q.x, q.x);
    lemma_negate_factor(q.y, q.y);
    lemma_negate_factor(q.z, q.z);
    lemma_distribute_signed(s * s, q.w * q.w, q.x * q.x, q.y * q.y, q.z * q.z);
    lemma_product3(n, s, s);
    lemma_zero_one(s);
}

/// The inverse of the inverse of a quaternion other than zero is the quaternion.
pub proof fn lemma_inverse_involution(q: RealQuat)
    requires
        q.norm_squared() != 0real,
    ensures
        q.inverse().inverse() == q,
{
    let n = q.norm_squared();
    let s = 1real / n;
    lemma_inverse_is_scaled_conjugate(q);
    lemma_inverse_norm(q);
    lemma_negate_factor(q.x, s);
    lemma_negate_factor(q.y, s);
    lemma_negate_factor(q.z, s);
    lemma_multiply_divide(q.w, s);
    lemma_multiply_divide(q.x, s);
    lemma_multiply_divide(q.y, s);
    lemma_multiply_divide(q.z, s);
}

/// The scalar part of `q v conj(q)` is zero for a quaternion `v` without scalar part.
proof fn lemma_conjugation_scalar(q: RealQuat, v: RealVec3)
    ensures
        q.mul(RealQuat::pure(v)).mul(q.conjugate()).w == 0real,
{
    let a = q.mul(RealQuat::pure(v));
    lemma_zero_one(q.w);
    lemma_zero_one(q.x);
    lemma_zero_one(q.y);
    lemma_zero_one(q.z);
    lemma_negate_factor(a.x, q.x);
    lemma_negate_factor(a.y, q.y);
    lemma_negate_factor(a.z, q.z);
    lemma_distribute_signed(q.w, q.w * 0real, q.x * v.x, q.y * v.y, q.z * v.z);
    lemma_distribute_signed(q.x, q.w * v.x, q.x * 0real, q.y * v.z, q.z * v.y);
    lemma_distribute_signed(q.y, q.w * v.y, q.x * v.z, q.y * 0real, q.z * v.x);
    lemma_distribute_signed(q.z, q.w * v.z, q.x * v.y, q.y * v.x, q.z * 0real);
    lemma_product3(q.x, v.x, q.w);
    lemma_product3(q.y, v.y, q.w);
    lemma_product3(q.z, v.z, q.w);
    lemma_product3(q.y, v.z, q.x);
    lemma_product3(q.z, v.y, q.x);
    lemma_product3(q.z, v.x, q.y);
}

/// For a quaternion `q` other than zero and a quaternion `v` without scalar
/// part, `q v q^-1` has no scalar part either.
pub proof fn lemma_conjugation_pure(q: RealQuat, v: RealVec3)
    requires
        q.norm_squared() != 0real,
    ensures
        q.mul(RealQuat::pure(v)).mul(q.inverse()).w == 0real,
        RealQuat::pure(q.mul(RealQuat::pure(v)).mul(q.inverse()).vector()) == q.mul(
            RealQuat::pure(v),
        ).mul(q.inverse()),
{
    let s = 1real / q.norm_squared();
    lemma_inverse_is_scaled_conjugate(q);
    lemma_mul_scale_right(q.mul(RealQuat::pure(v)), q.conjugate(), s);
    lemma_conjugation_scalar(q, v);
    lemma_zero_one(s);
}

/// The quaternion of a rotation has norm one: where `theta` is the length of
/// `rvec`, and the squares of `half_cos` and `half_sin` sum to one, as those
/// of a cosine and a sine do.
pub proof fn lemma_rotation_quaternion_unit(
    rvec: RealVec3,
    theta: real,
    half_cos: real,
    half_sin: real,
)
    requires
        rvec.has_length(theta),
        half_cos * half_cos + half_sin * half_sin == 1real,
    ensures
        RealQuat::from_rotation_vector(rvec, theta, half_cos, half_sin).norm_squared() == 1real,
{
    lemma_zero_one(1real);
    lemma_zero_one(0real);
    if real_abs(theta) >= small_angle() {
        let u = rvec.hat(theta);
        lemma_norm_positive(rvec, theta);
        lemma_hat_length(rvec, theta);
        lemma_square_of_product(u.x, half_sin);
        lemma_square_of_product(u.y, half_sin);
        lemma_square_of_product(u.z, half_sin);
        lemma_distribute_signed(half_sin * half_sin, u.x * u.x, u.y * u.y, u.z * u.z, 0real);
        lemma_zero_one(half_sin * half_sin);
    }
}

/// The norm of a quaternion is zero just where the quaternion is zero.
pub proof fn lemma_norm_zero(q: RealQuat)
    ensures
        q.norm_squared() == 0real <==> q == (RealQuat { w: 0real, x: 0real, y: 0real, z: 0real }),
        q.norm_squared() >= 0real,
{
    lemma_square(q.w);
    lemma_square(q.x);
    lemma_square(q.y);
    lemma_square(q.z);
}


/// A product with the quaternion zero is zero.
proof fn lemma_zero_product(a: RealQuat)
    ensures
        a.mul(RealQuat { w: 0real, x: 0real, y: 0real, z: 0real }) == (RealQuat {
            w: 0real,
            x: 0real,
            y: 0real,
            z: 0real,
        }),
{
    lemma_zero_one(a.w);
    lemma_zero_one(a.x);
    lemma_zero_one(a.y);
    lemma_zero_one(a.z);
}


/// A product of quaternions other than zero is other than zero.
pub proof fn lemma_product_invertible(a: RealQuat, b: RealQuat)
    requires
        a.norm_squared() != 0real,
        b.norm_squared() != 0real,
    ensures
        a.mul(b).norm_squared() != 0real,
{
    let ab = a.mul(b);
    if ab.norm_squared() == 0real {
        // A quaternion whose norm is zero is zero, and `a^-1 (a b) == b`.
        lemma_norm_zero(ab);
        lemma_mul_inverse(a);
        lemma_mul_associative(a.inverse(), a, b);
        lemma_mul_identity(b);
        let zero = RealQuat { w: 0real, x: 0real, y: 0real, z: 0real };
        assert(ab == zero);
        lemma_zero_product(a.inverse());
        lemma_norm_zero(b);
    }
}


/// The conjugate of a product is the product of the conjugates in the other order.
pub proof fn lemma_conjugate_product(a: RealQuat, b: RealQuat)
    ensures
        a.mul(b).conjugate() == b.conjugate().mul(a.conjugate()),
{
    lemma_negate_factor(b.w, a.w);
    lemma_commute(a.w, b.w);
    lemma_negate_factor(b.w, a.x);
    lemma_commute(a.x, b.w);
    lemma_negate_factor(b.w, a.y);
    lemma_commute(a.y, b.w);
    lemma_negate_factor(b.w, a.z);
    lemma_commute(a.z, b.w);
    lemma_negate_factor(b.x, a.w);
    lemma_commute(a.w, b.x);
    lemma_negate_factor(b.x, a.x);
    lemma_commute(a.x, b.x);
    lemma_negate_factor(b.x, a.y);
    lemma_commute(a.y, b.x);
    lemma_negate_factor(b.x, a.z);
    lemma_commute(a.z, b.x);
    lemma_negate_factor(b.y, a.w);
    lemma_commute(a.w, b.y);
    lemma_negate_factor(b.y, a.x);
    lemma_commute(a.x, b.y);
    lemma_negate_factor(b.y, a.y);
    lemma_commute(a.y, b.y);
    lemma_negate_factor(b.y, a.z);
    lemma_commute(a.z, b.y);
    lemma_negate_factor(b.z, a.w);
    lemma_commute(a.w, b.z);
    lemma_negate_factor(b.z, a.x);
    lemma_commute(a.x, b.z);
    lemma_negate_factor(b.z, a.y);
    lemma_commute(a.y, b.z);
    lemma_negate_factor(b.z, a.z);
    lemma_commute(a.z, b.z);
}

/// The square of the norm of a product is the product of the squares of the norms.
pub proof fn lemma_norm_multiplicative(a: RealQuat, b: RealQuat)
    ensures
        a.mul(b).norm_squared() == a.norm_squared() * b.norm_squared(),
{
    let ab = a.mul(b);
    let ca = a.conjugate();
    let cb = b.conjugate();
    let na = a.norm_squared();
    let nb = b.norm_squared();
    let one = RealQuat::identity();
    // (a b) conj(a b) = a (b conj(b)) conj(a) = nb (a conj(a)) = nb na
    lemma_mul_conjugate(ab);
    lemma_conjugate_product(a, b);
    lemma_mul_associative(a, b, cb.mul(ca));
    lemma_mul_associative(b, cb, ca);
    lemma_mul_conjugate(b);
    assert(b.mul(cb) == one.scale(nb)) by {
        lemma_zero_one(nb);
    }
    lemma_mul_scale_left(one, ca, nb);
    lemma_mul_identity(ca);
    lemma_mul_scale_right(a, ca, nb);
    lemma_mul_conjugate(a);
    lemma_commute(na, nb);
}

/// The norm of the exponential of `w + v` is `e^w`: where the length of `v`
/// is not under the small angle, and the squares of `axial_cos` and of
/// `axial_sinc` times that length sum to one, as those of a cosine and a sine
/// do, the square of the norm of the exponential is the square of `scalar_exp`.
pub proof fn lemma_exp_norm(q: RealQuat, scalar_exp: real, axial_cos: real, axial_sinc: real)
    requires
        q.vector().norm_squared() >= small_angle() * small_angle(),
        axial_cos * axial_cos + (axial_sinc * axial_sinc) * q.vector().norm_squared() == 1real,
    ensures
        q.exp(scalar_exp, axial_cos, axial_sinc).norm_squared() == scalar_exp * scalar_exp,
{
    let v = q.vector();
    let k = axial_sinc * axial_sinc;
    let e = scalar_exp * scalar_exp;
    lemma_square_of_product(axial_cos, scalar_exp);
    lemma_square_of_product(v.x * axial_sinc, scalar_exp);
    lemma_square_of_product(v.y * axial_sinc, scalar_exp);
    lemma_square_of_product(v.z * axial_sinc, scalar_exp);
    lemma_square_of_product(v.x, axial_sinc);
    lemma_square_of_product(v.y, axial_sinc);
    lemma_square_of_product(v.z, axial_sinc);
    lemma_distribute_signed(k, v.x * v.x, v.y * v.y, v.z * v.z, 0real);
    lemma_zero_one(k);
    lemma_commute(k, v.norm_squared());
    lemma_distribute_signed(
        e,
        axial_cos * axial_cos,
        (v.x * v.x) * k,
        (v.y * v.y) * k,
        (v.z * v.z) * k,
    );
    lemma_zero_one(e);
}

} // verus!
