//! Rotations of space, held as quaternions.
//!
//! A quaternion other than zero stands for a rotation; a quaternion and its
//! multiples stand for the same one. Rotations are composed with `add`, which
//! does not commute, and inverted with `neg`. No operation here rescales the
//! quaternion: the arithmetic is exact, so a quaternion of norm one stays of
//! norm one under `add`, `neg` and `sub`.
use crate::quaternion::{
    lemma_conjugation_pure, lemma_inverse_involution, lemma_inverse_norm, lemma_mul_associative,
    lemma_mul_identity, lemma_mul_inverse, lemma_mul_neg, lemma_norm_multiplicative,
    lemma_product_invertible, small_angle, Quaternion, RealQuat,
};
use crate::scalar::Scalar;
use crate::utils::real_ring::{
    lemma_cancel_common_factor, lemma_distribute2, lemma_divide_by_itself,
    lemma_divide_multiply, lemma_multiply_divide, lemma_negate_factor, lemma_product3,
    lemma_zero_one,
};
use crate::vectors::{lemma_norm_positive, real_abs, RealVec3, Vector3};
use vstd::prelude::*;
use vstd::std_specs::cmp::PartialEqSpecImpl;

verus! {

/// A rotation as a real quaternion: the mathematical model of `Rotation3`.
pub struct RealRotation {
    pub q: RealQuat,
}

impl RealRotation {
    pub open spec fn identity() -> RealRotation {
        RealRotation { q: RealQuat::identity() }
    }

    /// Whether the quaternion is other than zero, so that it can be inverted.
    pub open spec fn invertible(self) -> bool {
        self.q.norm_squared() != 0real
    }

    /// The inverse rotation.
    pub open spec fn neg(self) -> RealRotation {
        RealRotation { q: self.q.inverse() }
    }

    /// The rotation `self` followed by the rotation `other`.
    pub open spec fn add(self, other: RealRotation) -> RealRotation {
        RealRotation { q: other.q.mul(self.q) }
    }

    /// The rotation that, followed by `other`, gives `self`.
    pub open spec fn sub(self, other: RealRotation) -> RealRotation {
        RealRotation { q: other.q.inverse().mul(self.q) }
    }

    /// The image of `v`: the vector part of `q v q^-1`.
    pub open spec fn rotate(self, v: RealVec3) -> RealVec3 {
        self.q.mul(RealQuat::pure(v)).mul(self.q.inverse()).vector()
    }

    /// The rotation about the axis along `v` by the angle `theta`, from the
    /// cosine and the sine of half that angle.
    pub open spec fn from_axis_angle(
        v: RealVec3,
        theta: real,
        half_cos: real,
        half_sin: real,
    ) -> RealRotation {
        RealRotation { q: RealQuat::from_rotation_vector(v, theta, half_cos, half_sin) }
    }

    /// The vector along the axis of the rotation whose length is `t` times
    /// the angle of the rotation, the angle taken along the shorter arc:
    /// where the scalar part of the quaternion is negative, the vector part
    /// is taken negated. `half_angle` stands for the arc cosine of the
    /// absolute value of the scalar part, `axis_length` for the length of the
    /// vector part.
    pub open spec fn scaled_axis_angle(
        self,
        t: real,
        half_angle: real,
        axis_length: real,
    ) -> RealVec3 {
        if self.q.w >= 0real {
            self.q.vector().with_magnitude(2real * t * half_angle, axis_length)
        } else {
            self.q.vector().with_magnitude(2real * t * half_angle, axis_length).neg()
        }
    }

    /// The rotation about the same axis by `t` times the angle, the angle
    /// taken along the shorter arc: the rotation made of the rotation vector
    /// that `scaled_axis_angle` gives. `theta` stands for the length of that
    /// vector, `half_cos` and `half_sin` for the cosine and the sine of half
    /// of it.
    pub open spec fn scale(
        self,
        t: real,
        half_angle: real,
        axis_length: real,
        theta: real,
        half_cos: real,
        half_sin: real,
    ) -> RealRotation {
        RealRotation::from_axis_angle(
            self.scaled_axis_angle(t, half_angle, axis_length),
            theta,
            half_cos,
            half_sin,
        )
    }

    /// Of the two quaternions `q` and `-q`, which stand for the same rotation,
    /// the one whose scalar part is not negative: its angle is at most a half turn.
    pub open spec fn shorter_arc(self) -> RealRotation {
        if self.q.w >= 0real {
            self
        } else {
            RealRotation { q: self.q.neg() }
        }
    }
}

#[derive(Debug)]
pub struct Rotation3 {
    pub q: Quaternion,
}

impl View for Rotation3 {
    type V = RealRotation;

    open spec fn view(&self) -> RealRotation {
        RealRotation { q: self.q@ }
    }
}

impl Clone for Rotation3 {
    fn clone(&self) -> (r: Self)
        ensures
            r@ == self@,
    {
        Rotation3 { q: self.q.clone() }
    }
}

impl PartialEq for Rotation3 {
    /// Two rotations are equal when their quaternions are.
    fn eq(&self, other: &Self) -> (r: bool) {
        self.q.eq(&other.q)
    }
}

impl PartialEqSpecImpl for Rotation3 {
    open spec fn obeys_eq_spec() -> bool {
        true
    }

    open spec fn eq_spec(&self, other: &Self) -> bool {
        self@ == other@
    }
}

impl Rotation3 {
    pub fn identity() -> (r: Rotation3)
        ensures
            r@ == RealRotation::identity(),
    {
        Rotation3 { q: Quaternion::default() }
    }

    pub fn new(q: Quaternion) -> (r: Rotation3)
        ensures
            r@ == (RealRotation { q: q@ }),
    {
        Rotation3 { q }
    }

    /// Whether the quaternion is other than zero.
    pub fn is_invertible(&self) -> (r: bool)
        ensures
            r == self@.invertible(),
    {
        !self.q.norm_squared().is_zero()
    }

    /// The inverse rotation.
    pub fn neg(&self) -> (r: Rotation3)
        requires
            self@.invertible(),
        ensures
            r@ == self@.neg(),
    {
        Rotation3 { q: self.q.inverse() }
    }

    /// The rotation `self` followed by the rotation `other`.
    pub fn add(&self, other: &Rotation3) -> (r: Rotation3)
        ensures
            r@ == self@.add(other@),
    {
        Rotation3 { q: other.q.mul(&self.q) }
    }

    /// The rotation that, followed by `other`, gives `self`.
    pub fn sub(&self, other: &Rotation3) -> (r: Rotation3)
        requires
            other@.invertible(),
        ensures
            r@ == self@.sub(other@),
    {
        Rotation3 { q: other.q.inverse().mul(&self.q) }
    }

    /// The image of `vector` under the rotation.
    pub fn rotate_vector(&self, vector: &Vector3) -> (r: Vector3)
        requires
            self@.invertible(),
        ensures
            r@ == self@.rotate(vector@),
    {
        let as_quaternion: Quaternion = Quaternion::from_scalar_vector(
            Scalar::zero(),
            vector.clone(),
        );
        self.q.mul(&as_quaternion).mul(&self.q.inverse()).get_vector()
    }

    /// The rotation about the axis along `v` by the angle `theta`, which is
    /// the length of `v`, from the cosine and the sine of half that angle; the
    /// caller has computed the three. For an angle under `small_angle` the
    /// result is the rotation that moves nothing.
    pub fn from_axis_angle(
        v: &Vector3,
        theta: &Scalar,
        half_cos: &Scalar,
        half_sin: &Scalar,
    ) -> (r: Rotation3)
        ensures
            r@ == RealRotation::from_axis_angle(v@, theta@, half_cos@, half_sin@),
    {
        Rotation3 { q: Quaternion::from_rotation_vector(v, theta, half_cos, half_sin) }
    }

    /// The axis of the rotation, as long as `t` times its angle along the
    /// shorter arc: the rotation vector of the fraction `t` of this rotation.
    /// The caller has computed `half_angle`, the arc cosine of the absolute
    /// value of the scalar part of the quaternion, and `axis_length`, the
    /// length of its vector part.
    pub fn scaled_axis_angle(
        &self,
        t: &Scalar,
        half_angle: &Scalar,
        axis_length: &Scalar,
    ) -> (r: Vector3)
        ensures
            r@ == self@.scaled_axis_angle(t@, half_angle@, axis_length@),
    {
        let angle: Scalar = Scalar::from_int(2).mul(t).mul(half_angle);
        let along: Vector3 = self.q.get_vector().with_magnitude(&angle, axis_length);
        if self.q.w.is_negative() {
            along.neg()
        } else {
            along
        }
    }

    /// The fraction `t` of the rotation: the rotation about the same axis by
    /// `t` times the angle, where the angle is taken along the shorter arc.
    /// The caller has computed five values. Of this rotation: `half_angle`,
    /// the arc cosine of the absolute value of the scalar part of the
    /// quaternion, and `axis_length`, the length of its vector part. Of the
    /// result: `theta`, its angle, which is the length of the vector that
    /// `scaled_axis_angle` gives, and `half_cos` and `half_sin`, the cosine
    /// and the sine of half of it.
    pub fn scale(
        &self,
        t: &Scalar,
        half_angle: &Scalar,
        axis_length: &Scalar,
        theta: &Scalar,
        half_cos: &Scalar,
        half_sin: &Scalar,
    ) -> (r: Rotation3)
        ensures
            r@ == self@.scale(t@, half_angle@, axis_length@, theta@, half_cos@, half_sin@),
    {
        let along: Vector3 = self.scaled_axis_angle(t, half_angle, axis_length);
        Rotation3::from_axis_angle(&along, theta, half_cos, half_sin)
    }

    /// The same rotation, held by the quaternion whose scalar part is not negative.
    pub fn shorter_arc(&self) -> (r: Rotation3)
        ensures
            r@ == self@.shorter_arc(),
    {
        if self.q.w.is_negative() {
            let minus_one: Scalar = Scalar::from_int(-1);
            let q: Quaternion = self.q.scale(&minus_one);
            proof {
                let k = minus_one@;
                assert(self.q@.w * k == -self.q@.w) by (nonlinear_arith)
                    requires
                        k == -1real,
                ;
                assert(self.q@.x * k == -self.q@.x) by (nonlinear_arith)
                    requires
                        k == -1real,
                ;
                assert(self.q@.y * k == -self.q@.y) by (nonlinear_arith)
                    requires
                        k == -1real,
                ;
                assert(self.q@.z * k == -self.q@.z) by (nonlinear_arith)
                    requires
                        k == -1real,
                ;
            }
            Rotation3 { q }
        } else {
            self.clone()
        }
    }
}

/// The inverse of a rotation has an inverse, and that is the rotation.
pub proof fn lemma_neg_involution(r: RealRotation)
    requires
        r.invertible(),
    ensures
        r.neg().invertible(),
        r.neg().neg() == r,
{
    lemma_inverse_norm(r.q);
    lemma_inverse_involution(r.q);
}

/// A rotation followed by its inverse, in either order, moves nothing.
pub proof fn lemma_add_neg(r: RealRotation)
    requires
        r.invertible(),
    ensures
        r.add(r.neg()) == RealRotation::identity(),
        r.neg().add(r) == RealRotation::identity(),
{
    lemma_mul_inverse(r.q);
}

/// The rotation that moves nothing is neutral for composition.
pub proof fn lemma_add_identity(r: RealRotation)
    ensures
        r.add(RealRotation::identity()) == r,
        RealRotation::identity().add(r) == r,
{
    lemma_mul_identity(r.q);
}

/// Composition of rotations is associative.
pub proof fn lemma_add_associative(a: RealRotation, b: RealRotation, c: RealRotation)
    ensures
        a.add(b).add(c) == a.add(b.add(c)),
{
    lemma_mul_associative(c.q, b.q, a.q);
}

/// What is left of `a` after `b` is taken from it, followed by `b`, is `a`.
pub proof fn lemma_sub_then_add(a: RealRotation, b: RealRotation)
    requires
        b.invertible(),
    ensures
        a.sub(b).add(b) == a,
{
    lemma_mul_associative(b.q, b.q.inverse(), a.q);
    lemma_mul_inverse(b.q);
    lemma_mul_identity(a.q);
}

/// Of quaternions `q` and `p` that are inverse to each other: conjugating by
/// `q` undoes conjugating by `p`.
proof fn lemma_conjugate_back(q: RealQuat, p: RealQuat, v: RealQuat)
    requires
        q.mul(p) == RealQuat::identity(),
    ensures
        q.mul(p.mul(v).mul(q)).mul(p) == v,
{
    let pv = p.mul(v);
    lemma_mul_associative(q, pv, q);
    lemma_mul_associative(q, p, v);
    lemma_mul_identity(v);
    lemma_mul_associative(v, q, p);
}

/// A rotation undoes its inverse, and its inverse undoes it.
pub proof fn lemma_rotate_back(r: RealRotation, v: RealVec3)
    requires
        r.invertible(),
    ensures
        r.rotate(r.neg().rotate(v)) == v,
        r.neg().rotate(r.rotate(v)) == v,
{
    let q = r.q;
    let p = r.q.inverse();
    let pure_v = RealQuat::pure(v);
    lemma_inverse_norm(q);
    lemma_inverse_involution(q);
    lemma_mul_inverse(q);
    lemma_conjugation_pure(p, v);
    lemma_conjugate_back(q, p, pure_v);
    lemma_conjugation_pure(q, v);
    lemma_conjugate_back(p, q, pure_v);
}

/// The image of a negated vector is the negated image.
pub proof fn lemma_rotate_neg(r: RealRotation, v: RealVec3)
    ensures
        r.rotate(v.neg()) == r.rotate(v).neg(),
{
    let pure_v = RealQuat::pure(v);
    assert(RealQuat::pure(v.neg()) == pure_v.neg());
    lemma_mul_neg(r.q, pure_v);
    lemma_mul_neg(r.q.mul(pure_v), r.q.inverse());
}

/// The rotation that moves nothing moves no vector.
pub proof fn lemma_rotate_identity(v: RealVec3)
    ensures
        RealRotation::identity().rotate(v) == v,
{
    let one = RealQuat::identity();
    assert(one.norm_squared() == 1real) by (nonlinear_arith)
        requires
            one.norm_squared() == 1real * 1real + 0real * 0real + 0real * 0real + 0real * 0real,
    ;
    lemma_mul_inverse(one);
    lemma_mul_identity(one.inverse());
    lemma_mul_identity(RealQuat::pure(v));
}

/// To rotate by `a` and then by `b` is to rotate by `a` followed by `b`.
pub proof fn lemma_rotate_add(a: RealRotation, b: RealRotation, v: RealVec3)
    requires
        a.invertible(),
        b.invertible(),
    ensures
        a.add(b).rotate(v) == b.rotate(a.rotate(v)),
{
    let pure_v = RealQuat::pure(v);
    let qa = a.q;
    let qb = b.q;
    let ia = qa.inverse();
    let ib = qb.inverse();
    let ba = qb.mul(qa);
    lemma_mul_inverse(qa);
    lemma_mul_inverse(qb);
    // The inverse of `qb qa` is `ia ib`: the product of the two, in either
    // order, is one, and an inverse is determined by that.
    lemma_mul_associative(ba, ia, ib);
    lemma_mul_associative(qb, qa, ia);
    lemma_mul_identity(qb);
    assert(ba.mul(ia.mul(ib)) == RealQuat::identity());
    lemma_product_invertible(qb, qa);
    lemma_mul_inverse(ba);
    lemma_mul_associative(ba.inverse(), ba, ia.mul(ib));
    lemma_mul_identity(ia.mul(ib));
    lemma_mul_identity(ba.inverse());
    assert(ba.inverse() == ia.mul(ib));
    // `(qb qa) v (ia ib) == qb (qa v ia) ib`, and `qa v ia` has no scalar part.
    lemma_conjugation_pure(qa, v);
    lemma_mul_associative(ba.mul(pure_v), ia, ib);
    lemma_mul_associative(qb, qa, pure_v);
    lemma_mul_associative(qb, qa.mul(pure_v), ia);
}

/// A quaternion and its negative stand for the same rotation, so the rotation
/// of the shorter arc moves every vector as the rotation itself does.
pub proof fn lemma_shorter_arc_same_rotation(r: RealRotation, v: RealVec3)
    requires
        r.invertible(),
    ensures
        r.shorter_arc().rotate(v) == r.rotate(v),
        r.shorter_arc().q.w >= 0real,
        r.shorter_arc().invertible(),
{
    let q = r.q;
    let m = q.neg();
    lemma_negate_factor(q.w, q.w);
    lemma_negate_factor(q.x, q.x);
    lemma_negate_factor(q.y, q.y);
    lemma_negate_factor(q.z, q.z);
    assert(m.norm_squared() == q.norm_squared());
    assert(m.conjugate() == q.conjugate().neg());
    lemma_neg_divide(q.conjugate(), q.norm_squared());
    assert(m.inverse() == q.inverse().neg());
    lemma_mul_neg(q, RealQuat::pure(v));
    lemma_mul_neg(q.mul(RealQuat::pure(v)).neg(), q.inverse());
    lemma_mul_neg(q.mul(RealQuat::pure(v)), q.inverse());
}

/// Dividing the negative of a quaternion gives the negative of the quotient.
proof fn lemma_neg_divide(q: RealQuat, n: real)
    requires
        n != 0real,
    ensures
        q.neg().div(n) == q.div(n).neg(),
{
    lemma_neg_quotient(q.w, n);
    lemma_neg_quotient(q.x, n);
    lemma_neg_quotient(q.y, n);
    lemma_neg_quotient(q.z, n);
}

/// The rotation vector of a fraction of a rotation is taken from the
/// quaternion of the shorter arc.
pub proof fn lemma_scaled_axis_angle_shorter_arc(
    r: RealRotation,
    t: real,
    half_angle: real,
    axis_length: real,
)
    ensures
        r.scaled_axis_angle(t, half_angle, axis_length)
            == r.shorter_arc().q.vector().with_magnitude(2real * t * half_angle, axis_length),
{
    let k = 2real * t * half_angle;
    let v = r.q.vector();
    if r.q.w < 0real && axis_length != 0real {
        lemma_negate_factor(v.x, k);
        lemma_negate_factor(v.y, k);
        lemma_negate_factor(v.z, k);
        lemma_neg_quotient(v.x * k, axis_length);
        lemma_neg_quotient(v.y * k, axis_length);
        lemma_neg_quotient(v.z * k, axis_length);
    }
}

/// The quotient of a negated number is the negated quotient.
proof fn lemma_neg_quotient(a: real, n: real)
    requires
        n != 0real,
    ensures
        (-a) / n == -(a / n),
{
    assert((-a) / n == -(a / n)) by (nonlinear_arith)
        requires
            n != 0real,
    ;
}

/// A rotation held by a quaternion of norm one.
pub open spec fn unit(r: RealRotation) -> bool {
    r.q.norm_squared() == 1real
}

/// Exact arithmetic lets nothing drift: rotations held by quaternions of norm
/// one are composed, inverted and subtracted to rotations held by quaternions
/// of norm one.
pub proof fn lemma_unit_is_kept(a: RealRotation, b: RealRotation)
    requires
        unit(a),
        unit(b),
    ensures
        unit(RealRotation::identity()),
        unit(a.add(b)),
        unit(a.neg()),
        unit(a.sub(b)),
        unit(a.shorter_arc()),
{
    lemma_zero_one(1real);
    lemma_zero_one(0real);
    lemma_norm_multiplicative(b.q, a.q);
    lemma_inverse_norm(a.q);
    lemma_inverse_norm(b.q);
    lemma_divide_by_itself(1real);
    lemma_norm_multiplicative(b.q.inverse(), a.q);
    lemma_negate_factor(a.q.w, a.q.w);
    lemma_negate_factor(a.q.x, a.q.x);
    lemma_negate_factor(a.q.y, a.q.y);
    lemma_negate_factor(a.q.z, a.q.z);
}

/// A fraction of a rotation turns about the axis of the shorter arc. Let the
/// rotation be made from the rotation vector `v` of length `theta`, with the
/// cosine `half_cos` and the sine `half_sin` of half the angle, the sine
/// positive; let `u` be the unit vector along `v`. The rotation vector of the
/// fraction `t` is then `u` times `t` times twice `half_angle` where the
/// cosine is not negative, and `-u` times as much where it is negative: there
/// the angle `theta` is more than a half turn, and the shorter arc runs the
/// other way round, by the angle that `half_angle` is half of.
pub proof fn lemma_fraction_of_rotation(
    v: RealVec3,
    theta: real,
    half_cos: real,
    half_sin: real,
    t: real,
    half_angle: real,
)
    requires
        v.has_length(theta),
        theta >= small_angle(),
        half_sin > 0real,
    ensures
        ({
            let r = RealRotation::from_axis_angle(v, theta, half_cos, half_sin);
            let u = v.hat(theta);
            let along = r.scaled_axis_angle(t, half_angle, half_sin);
            &&& half_cos >= 0real ==> along == u.scale(2real * t * half_angle)
            &&& half_cos < 0real ==> along == u.neg().scale(2real * t * half_angle)
        }),
{
    let u = v.hat(theta);
    let k = 2real * t * half_angle;
    lemma_product3(u.x, half_sin, k);
    lemma_product3(u.y, half_sin, k);
    lemma_product3(u.z, half_sin, k);
    lemma_multiply_divide(u.x * k, half_sin);
    lemma_multiply_divide(u.y * k, half_sin);
    lemma_multiply_divide(u.z * k, half_sin);
    lemma_negate_factor(u.x, k);
    lemma_negate_factor(u.y, k);
    lemma_negate_factor(u.z, k);
}

/// The rotation vector comes back from the rotation made of it. With the
/// values of the lemma before, and `half_angle` the half of the angle of the
/// shorter arc: where the cosine is not negative, so that the angle is
/// `theta` itself, the whole of the rotation has the rotation vector `v`;
/// where it is negative, it has `v` less a full turn about the same axis, the
/// full turn being `theta` and the angle of the shorter arc together.
pub proof fn lemma_axis_angle_round_trip(
    v: RealVec3,
    theta: real,
    half_cos: real,
    half_sin: real,
    half_angle: real,
)
    requires
        v.has_length(theta),
        theta >= small_angle(),
        half_sin > 0real,
        half_cos >= 0real ==> 2real * half_angle == theta,
    ensures
        ({
            let r = RealRotation::from_axis_angle(v, theta, half_cos, half_sin);
            let u = v.hat(theta);
            let back = r.scaled_axis_angle(1real, half_angle, half_sin);
            &&& half_cos >= 0real ==> back == v
            &&& half_cos < 0real ==> back == v.sub(u.scale(theta + 2real * half_angle))
        }),
{
    let u = v.hat(theta);
    lemma_fraction_of_rotation(v, theta, half_cos, half_sin, 1real, half_angle);
    lemma_norm_positive(v, theta);
    lemma_divide_multiply(v.x, theta);
    lemma_divide_multiply(v.y, theta);
    lemma_divide_multiply(v.z, theta);
    lemma_zero_one(half_angle);
    assert(2real * 1real * half_angle == 2real * half_angle);
    if half_cos < 0real {
        let turn = 2real * half_angle;
        lemma_distribute2(u.x, theta, turn);
        lemma_distribute2(u.y, theta, turn);
        lemma_distribute2(u.z, theta, turn);
        lemma_negate_factor(u.x, turn);
        lemma_negate_factor(u.y, turn);
        lemma_negate_factor(u.z, turn);
    }
}

/// The fraction of a rotation is a rotation about the axis of the shorter
/// arc. With the values of `lemma_fraction_of_rotation`, `angle` for `t`
/// times twice `half_angle`, not under the small angle, and `cos` and `sin`
/// for the cosine and the sine of half of `angle`: the quaternion of the
/// fraction `t` is `cos + sin u` where the cosine of the rotation is not
/// negative, and `cos - sin u` where it is negative, `u` being the unit
/// vector along the rotation vector that the rotation was made of.
pub proof fn lemma_scale_quaternion(
    v: RealVec3,
    theta: real,
    half_cos: real,
    half_sin: real,
    t: real,
    half_angle: real,
    angle: real,
    cos: real,
    sin: real,
)
    requires
        v.has_length(theta),
        theta >= small_angle(),
        half_sin > 0real,
        angle == 2real * t * half_angle,
        angle >= small_angle(),
    ensures
        ({
            let r = RealRotation::from_axis_angle(v, theta, half_cos, half_sin);
            let u = v.hat(theta);
            let part = r.scale(t, half_angle, half_sin, angle, cos, sin);
            &&& half_cos >= 0real ==> part.q == RealQuat::from_scalar_vector(cos, u.scale(sin))
            &&& half_cos < 0real ==> part.q == RealQuat::from_scalar_vector(
                cos,
                u.neg().scale(sin),
            )
        }),
{
    let u = v.hat(theta);
    let w = if half_cos >= 0real {
        u
    } else {
        u.neg()
    };
    lemma_fraction_of_rotation(v, theta, half_cos, half_sin, t, half_angle);
    // the unit vector times the angle, divided by the angle, is the unit vector
    lemma_multiply_divide(w.x, angle);
    lemma_multiply_divide(w.y, angle);
    lemma_multiply_divide(w.z, angle);
    lemma_cancel_common_factor(w.x, 1real, angle);
    lemma_cancel_common_factor(w.y, 1real, angle);
    lemma_cancel_common_factor(w.z, 1real, angle);
    assert(w.scale(angle).hat(angle) == w);
}

} // verus!
