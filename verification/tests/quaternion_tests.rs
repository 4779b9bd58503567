use yagl::quaternion::{small_angle_value, Quaternion};
use yagl::scalar::Scalar;
use yagl::vectors::Vector3;

fn s(x: f64) -> Scalar {
    Scalar::from_double_bits(x.to_bits()).unwrap()
}

fn q(w: f64, x: f64, y: f64, z: f64) -> Quaternion {
    Quaternion::new(s(w), s(x), s(y), s(z))
}

#[test]
fn quaternion_default_is_one() {
    assert_eq!(Quaternion::default(), q(1.0, 0.0, 0.0, 0.0));
}

#[test]
fn quaternion_units_multiply_as_hamilton_said() {
    let i = q(0.0, 1.0, 0.0, 0.0);
    let j = q(0.0, 0.0, 1.0, 0.0);
    let k = q(0.0, 0.0, 0.0, 1.0);
    let minus_one = q(-1.0, 0.0, 0.0, 0.0);
    assert_eq!(i.mul(&j), k);
    assert_eq!(j.mul(&k), i);
    assert_eq!(k.mul(&i), j);
    assert_eq!(j.mul(&i), q(0.0, 0.0, 0.0, -1.0));
    assert_eq!(i.mul(&i), minus_one);
    assert_eq!(j.mul(&j), minus_one);
    assert_eq!(k.mul(&k), minus_one);
    assert_eq!(i.mul(&j).mul(&k), minus_one);
}

#[test]
fn quaternion_product_does_not_commute() {
    let a = q(1.0, 2.0, 3.0, 4.0);
    let b = q(5.0, 6.0, 7.0, 8.0);
    assert_eq!(a.mul(&b), q(-60.0, 12.0, 30.0, 24.0));
    assert_eq!(b.mul(&a), q(-60.0, 20.0, 14.0, 32.0));
    assert_ne!(a.mul(&b), b.mul(&a));
}

#[test]
fn quaternion_product_is_associative() {
    let a = q(1.0, 2.0, 3.0, 4.0);
    let b = q(-0.5, 6.0, 0.25, 8.0);
    let c = q(2.0, -1.0, 1.5, 0.0);
    assert_eq!(a.mul(&b).mul(&c), a.mul(&b.mul(&c)));
}

#[test]
fn quaternion_componentwise_operations() {
    let a = q(1.0, 2.0, 3.0, 4.0);
    let b = q(0.5, -2.0, 1.0, 0.0);
    assert_eq!(a.add(&b), q(1.5, 0.0, 4.0, 4.0));
    assert_eq!(a.sub(&b), q(0.5, 4.0, 2.0, 4.0));
    assert_eq!(a.scale(&s(2.0)), q(2.0, 4.0, 6.0, 8.0));
    assert_eq!(a.div(&s(2.0)), q(0.5, 1.0, 1.5, 2.0));
    assert_eq!(a.conjugate(), q(1.0, -2.0, -3.0, -4.0));
    assert_eq!(a.dot(&b), s(0.5 - 4.0 + 3.0));
    assert_eq!(a.norm_squared(), s(30.0));
}

#[test]
fn quaternion_parts() {
    let a = q(1.0, 2.0, 3.0, 4.0);
    assert_eq!(a.get_scalar(), s(1.0));
    assert_eq!(a.get_vector(), Vector3::new(s(2.0), s(3.0), s(4.0)));
    let b = Quaternion::from_scalar_vector(s(1.0), Vector3::new(s(2.0), s(3.0), s(4.0)));
    assert_eq!(a, b);
}

#[test]
fn quaternion_inverse_is_conjugate_over_norm_squared() {
    let a = q(1.0, 2.0, 3.0, 4.0);
    let inv = a.inverse();
    let thirtieth = Scalar::from_ratio(1, 30).unwrap();
    assert_eq!(inv, a.conjugate().scale(&thirtieth));
    assert_eq!(a.mul(&inv), Quaternion::default());
    assert_eq!(inv.mul(&a), Quaternion::default());
    assert_eq!(inv.inverse(), a);
}

#[test]
fn quaternion_equality_is_exact() {
    let a = q(1.0, 2.0, 3.0, 4.0);
    let near = Quaternion::new(s(1.0).add(&s(1e-13)), s(2.0), s(3.0), s(4.0));
    assert_ne!(a, near);
}

#[test]
fn quaternion_hat_divides_by_the_norm() {
    let a = q(1.0, 2.0, 2.0, 4.0);
    assert_eq!(a.norm_squared(), s(25.0));
    let fifth = |n: i64| Scalar::from_ratio(n, 5).unwrap();
    assert_eq!(a.hat(&s(5.0)), Quaternion::new(fifth(1), fifth(2), fifth(2), fifth(4)));
    assert_eq!(a.hat(&s(5.0)).norm_squared(), Scalar::one());
    let zero = q(0.0, 0.0, 0.0, 0.0);
    assert_eq!(zero.hat(&Scalar::zero()), Quaternion::default());
}

#[test]
fn small_angle_is_ten_to_the_minus_nine() {
    assert_eq!(small_angle_value(), Scalar::from_ratio(1, 1_000_000_000).unwrap());
}

#[test]
fn rotation_vector_under_the_small_angle_is_no_rotation() {
    let tiny = Vector3::new(s(0.0), s(0.0), s(1e-10));
    let made = Quaternion::from_rotation_vector(&tiny, &s(1e-10), &s(1.0), &s(5e-11));
    assert_eq!(made, Quaternion::default());
    let zero = Vector3::zero();
    let made = Quaternion::from_rotation_vector(&zero, &Scalar::zero(), &s(1.0), &s(0.0));
    assert_eq!(made, Quaternion::default());
    // at the bound itself the general formula is used
    let bound = small_angle_value();
    let at_bound = Vector3::new(Scalar::zero(), Scalar::zero(), bound.clone());
    let made = Quaternion::from_rotation_vector(&at_bound, &bound, &s(0.5), &s(0.25));
    assert_eq!(made, q(0.5, 0.0, 0.0, 0.25));
}

#[test]
fn rotation_vector_gives_cosine_and_sine_along_the_axis() {
    // an angle whose half has the cosine 3/5 and the sine 4/5, about the axis (2, 3, 6) / 7
    let axis = Vector3::new(s(2.0), s(3.0), s(6.0)).scale(&s(0.25));
    let theta = s(1.75);
    assert!(axis.has_length(&theta));
    let c = Scalar::from_ratio(3, 5).unwrap();
    let sn = Scalar::from_ratio(4, 5).unwrap();
    let made = Quaternion::from_rotation_vector(&axis, &theta, &c, &sn);
    let expected = Quaternion::new(
        c,
        Scalar::from_ratio(8, 35).unwrap(),
        Scalar::from_ratio(12, 35).unwrap(),
        Scalar::from_ratio(24, 35).unwrap(),
    );
    assert_eq!(made, expected);
    assert_eq!(made.norm_squared(), Scalar::one());
}

#[test]
fn exponential_is_assembled_from_its_three_values() {
    // w = 0.5, v = (3, 0, 4): handed e^w = 2, cos |v| = 0.25, sin |v| / |v| = 0.125
    let a = q(0.5, 3.0, 0.0, 4.0);
    let made = a.exp(&s(2.0), &s(0.25), &s(0.125));
    assert_eq!(made, q(0.5, 0.75, 0.0, 1.0));
}

#[test]
fn exponential_near_zero_uses_the_series() {
    // |v| = 5e-10 is under the small angle: the sinc handed in is not used
    let a = Quaternion::new(s(0.0), s(3e-10), s(0.0), s(4e-10));
    let n = a.get_vector().magnitude_squared();
    let series = Scalar::one()
        .sub(&n.div(&Scalar::from_int(6)))
        .add(&n.mul(&n).div(&Scalar::from_int(120)));
    let made = a.exp(&s(1.0), &s(1.0), &s(1000.0));
    assert_eq!(made.w, Scalar::one());
    assert_eq!(made.x, a.x.mul(&series));
    assert_eq!(made.y, Scalar::zero());
    assert_eq!(made.z, a.z.mul(&series));
    assert_ne!(made.x, a.x.mul(&s(1000.0)));
    // of the quaternion zero the exponential is one
    let zero = q(0.0, 0.0, 0.0, 0.0);
    assert_eq!(zero.exp(&s(1.0), &s(1.0), &s(1.0)), Quaternion::default());
}
