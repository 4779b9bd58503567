use yagl::quaternion::Quaternion;
use yagl::scalar::Scalar;
use yagl::vectors::{tolerance_squared_value, Vector2, Vector3};

fn s(x: f64) -> Scalar {
    Scalar::from_double_bits(x.to_bits()).unwrap()
}

fn v3(x: f64, y: f64, z: f64) -> Vector3 {
    Vector3::new(s(x), s(y), s(z))
}

fn v2(x: f64, y: f64) -> Vector2 {
    Vector2::new(s(x), s(y))
}

#[test]
fn basis_vectors_cross_in_order() {
    let i = Vector3::i_hat();
    let j = Vector3::j_hat();
    let k = Vector3::k_hat();
    assert_eq!(i.cross(&j), k);
    assert_eq!(j.cross(&k), i);
    assert_eq!(k.cross(&i), j);
    assert_eq!(j.cross(&i), k.neg());
    assert!(i.dot(&j).is_zero());
    assert!(j.dot(&k).is_zero());
    assert!(k.dot(&i).is_zero());
    assert_eq!(i.dot(&i), Scalar::one());
}

#[test]
fn cross_product_scales_with_an_operand() {
    let a = v3(1.5, -2.0, 0.25);
    let b = v3(4.0, 0.5, -3.0);
    let k = s(-2.5);
    assert_eq!(a.cross(&b.scale(&k)), a.cross(&b).scale(&k));
    assert_eq!(a.scale(&k).cross(&b), a.cross(&b).scale(&k));
    assert_eq!(b.cross(&a), a.cross(&b).neg());
    assert!(a.dot(&a.cross(&b)).is_zero());
    assert!(b.dot(&a.cross(&b)).is_zero());
}

#[test]
fn cross_product_components() {
    let a = v3(1.0, 2.0, 3.0);
    let b = v3(4.0, 5.0, 6.0);
    let c = a.cross(&b);
    assert_eq!(c.x, s(-3.0));
    assert_eq!(c.y, s(6.0));
    assert_eq!(c.z, s(-3.0));
    assert_eq!(a.dot(&b), s(32.0));
}

#[test]
fn vector3_arithmetic() {
    let a = v3(1.0, 2.0, 3.0);
    let b = v3(0.5, -1.0, 4.0);
    assert_eq!(a.add(&b), v3(1.5, 1.0, 7.0));
    assert_eq!(a.sub(&b), v3(0.5, 3.0, -1.0));
    assert_eq!(a.neg(), v3(-1.0, -2.0, -3.0));
    assert_eq!(a.scale(&s(2.0)), v3(2.0, 4.0, 6.0));
    assert_eq!(a.div(&s(2.0)), v3(0.5, 1.0, 1.5));
    assert_eq!(a.magnitude_squared(), s(14.0));
    assert_eq!(a.dist_squared_to(&b), s(0.25 + 9.0 + 1.0));
    let parts = a.as_array();
    assert_eq!(parts[0], s(1.0));
    assert_eq!(parts[1], s(2.0));
    assert_eq!(parts[2], s(3.0));
}

#[test]
fn vector3_zero_is_recognised() {
    assert!(Vector3::zero().is_zero());
    assert!(!Vector3::k_hat().is_zero());
    assert!(v3(1.0, 2.0, 3.0).sub(&v3(1.0, 2.0, 3.0)).is_zero());
    assert!(Vector3::zero().magnitude_squared().is_zero());
}

#[test]
fn vector_equality_is_up_to_the_tolerance() {
    let a = v3(1.0, 2.0, 3.0);
    let near = Vector3::new(s(1.0).add(&s(1e-13)), s(2.0), s(3.0));
    let far = Vector3::new(s(1.0).add(&s(1e-11)), s(2.0), s(3.0));
    assert_eq!(a, near);
    assert_ne!(a, far);
    let p = v2(1.0, 2.0);
    let p_near = Vector2::new(s(1.0), s(2.0).sub(&s(1e-13)));
    let p_far = Vector2::new(s(1.0), s(2.0).sub(&s(1e-11)));
    assert_eq!(p, p_near);
    assert_ne!(p, p_far);
}

#[test]
fn tolerance_is_ten_to_the_minus_twenty_four() {
    let t = tolerance_squared_value();
    let mut scaled = t;
    let ten = Scalar::from_int(10);
    for _ in 0..24 {
        scaled = scaled.mul(&ten);
    }
    assert_eq!(scaled, Scalar::one());
}

#[test]
fn vector2_arithmetic() {
    let a = v2(3.0, 4.0);
    let b = v2(-1.0, 0.5);
    assert_eq!(a.add(&b), v2(2.0, 4.5));
    assert_eq!(a.sub(&b), v2(4.0, 3.5));
    assert_eq!(a.neg(), v2(-3.0, -4.0));
    assert_eq!(a.scale(&s(0.5)), v2(1.5, 2.0));
    assert_eq!(a.div(&s(4.0)), v2(0.75, 1.0));
    assert_eq!(a.dot(&b), s(-1.0));
    assert_eq!(a.cross(&b), s(5.5));
    assert_eq!(a.magnitude_squared(), s(25.0));
    assert_eq!(a.dist_squared_to(&b), s(16.0 + 12.25));
    assert_eq!(Vector2::i_hat().cross(&Vector2::j_hat()), Scalar::one());
    assert_eq!(Vector2::j_hat().cross(&Vector2::i_hat()), s(-1.0));
    assert!(Vector2::i_hat().dot(&Vector2::j_hat()).is_zero());
    assert_eq!(Vector2::zero(), v2(0.0, 0.0));
}

#[test]
fn product_of_vectors_is_dot_and_cross() {
    let a = v3(1.0, 2.0, 3.0);
    let b = v3(4.0, 5.0, 6.0);
    let q = a.mul(&b);
    assert_eq!(q, Quaternion::new(s(32.0), s(-3.0), s(6.0), s(-3.0)));
}

#[test]
fn hat_divides_by_the_length() {
    let v = v3(2.0, 3.0, 6.0);
    assert!(v.has_length(&s(7.0)));
    assert!(!v.has_length(&s(-7.0)));
    assert!(!v.has_length(&s(7.5)));
    let seventh = |n: i64| Scalar::from_ratio(n, 7).unwrap();
    let unit = v.hat(&s(7.0));
    assert!(unit.x.equals(&seventh(2)));
    assert!(unit.y.equals(&seventh(3)));
    assert!(unit.z.equals(&seventh(6)));
    assert!(unit.has_length(&Scalar::one()));
    assert_eq!(unit, v3(2.0 / 7.0, 3.0 / 7.0, 6.0 / 7.0));
}

#[test]
fn hat_of_zero_is_zero() {
    assert!(Vector3::zero().hat(&Scalar::zero()).is_zero());
    assert!(Vector3::zero().hat(&s(5.0)).is_zero());
    assert_eq!(Vector2::zero().hat(&Scalar::zero()), Vector2::zero());
    assert_eq!(v2(3.0, 4.0).hat(&s(5.0)), v2(0.6, 0.8));
}

#[test]
fn with_magnitude_rescales() {
    let v = v3(2.0, 3.0, 6.0);
    assert_eq!(v.with_magnitude(&s(70.0), &s(7.0)), v3(20.0, 30.0, 60.0));
    assert!(v.with_magnitude(&s(70.0), &s(7.0)).has_length(&s(70.0)));
    assert!(v.with_magnitude(&s(-70.0), &s(7.0)).has_length(&s(70.0)));
    assert_eq!(v.with_magnitude(&s(-70.0), &s(7.0)), v3(-20.0, -30.0, -60.0));
    assert!(Vector3::zero().with_magnitude(&s(100.0), &Scalar::zero()).is_zero());
    assert!(Vector3::i_hat().with_magnitude(&s(0.0), &s(1.0)).is_zero());
}

#[test]
fn angle_cosine_examples() {
    let x = Vector3::i_hat();
    let y = Vector3::j_hat();
    let xy = Vector3::i_hat().add(&Vector3::j_hat());
    let zero = Vector3::zero();
    let one = Scalar::one();
    assert!(x.angle_cosine(&y, &one, &one).unwrap().is_zero());
    assert_eq!(x.angle_cosine(&x, &one, &one), Some(Scalar::one()));
    assert!(x.angle_cosine(&zero, &one, &Scalar::zero()).is_none());
    assert!(zero.angle_cosine(&x, &Scalar::zero(), &one).is_none());
    // the length of (1, 1, 0) is the square root of two, handed in rounded
    let root_two = s(2.0f64.sqrt());
    let cosine = x.angle_cosine(&xy, &one, &root_two).unwrap();
    let expected = s(std::f64::consts::FRAC_1_SQRT_2);
    let gap = cosine.sub(&expected);
    assert!(gap.less_than(&s(1e-9)));
    assert!(s(-1e-9).less_than(&gap));
    let v = v3(2.0, 3.0, 6.0);
    assert_eq!(v.angle_cosine(&v, &s(7.0), &s(7.0)), Some(Scalar::one()));
    assert_eq!(v.angle_cosine(&v.neg(), &s(7.0), &s(7.0)), Some(s(-1.0)));
}

#[test]
fn angle_cosine_in_the_plane() {
    let a = v2(3.0, 4.0);
    let b = v2(4.0, 3.0);
    let five = s(5.0);
    assert_eq!(a.angle_cosine(&b, &five, &five), Scalar::from_ratio(24, 25));
    assert_eq!(a.angle_cosine(&a, &five, &five), Some(Scalar::one()));
    assert!(a.angle_cosine(&Vector2::zero(), &five, &Scalar::zero()).is_none());
}
