use yagl::pose3::Pose3;
use yagl::quaternion::Quaternion;
use yagl::rotation3::Rotation3;
use yagl::scalar::Scalar;
use yagl::vectors::Vector3;

fn s(x: f64) -> Scalar {
    Scalar::from_double_bits(x.to_bits()).unwrap()
}

fn v3(x: f64, y: f64, z: f64) -> Vector3 {
    Vector3::new(s(x), s(y), s(z))
}

fn q(w: f64, x: f64, y: f64, z: f64) -> Quaternion {
    Quaternion::new(s(w), s(x), s(y), s(z))
}

/// A quarter turn about the z axis. The quaternion is `cos 45 + sin 45 k`
/// times the square root of two.
fn quarter_turn_about_k() -> Rotation3 {
    Rotation3::new(q(1.0, 0.0, 0.0, 1.0))
}

/// A turn about the z axis by the angle whose cosine is 3/5: the quaternion
/// `(2 + k) / sqrt 5`, of norm one up to the factor.
fn turn_about_k_by_acos_three_fifths() -> Rotation3 {
    Rotation3::new(q(2.0, 0.0, 0.0, 1.0))
}

#[test]
fn rotation_identity_moves_nothing() {
    let r = Rotation3::identity();
    assert!(r.is_invertible());
    assert_eq!(r.rotate_vector(&v3(1.0, 2.0, 3.0)), v3(1.0, 2.0, 3.0));
}

#[test]
fn quarter_turn_takes_x_to_y() {
    let r = quarter_turn_about_k();
    assert_eq!(r.rotate_vector(&Vector3::i_hat()), Vector3::j_hat());
    assert_eq!(r.rotate_vector(&Vector3::j_hat()), Vector3::i_hat().neg());
    assert_eq!(r.rotate_vector(&Vector3::k_hat()), Vector3::k_hat());
}

#[test]
fn rotation_by_known_angle() {
    let r = turn_about_k_by_acos_three_fifths();
    // cos = 3/5, sin = 4/5
    assert_eq!(r.rotate_vector(&Vector3::i_hat()), v3(0.6, 0.8, 0.0));
    let exact = Vector3::new(
        Scalar::from_ratio(3, 5).unwrap(),
        Scalar::from_ratio(4, 5).unwrap(),
        Scalar::zero(),
    );
    assert!(r.rotate_vector(&Vector3::i_hat()).sub(&exact).is_zero());
}

#[test]
fn rotation_followed_by_inverse_is_identity() {
    let r = Rotation3::new(q(1.0, 2.0, -3.0, 0.5));
    assert_eq!(r.add(&r.neg()), Rotation3::identity());
    assert_eq!(r.neg().add(&r), Rotation3::identity());
    assert_eq!(r.neg().neg(), r);
    let v = v3(0.25, -7.0, 3.0);
    assert!(r.neg().rotate_vector(&r.rotate_vector(&v)).sub(&v).is_zero());
    assert!(r.rotate_vector(&r.neg().rotate_vector(&v)).sub(&v).is_zero());
}

#[test]
fn rotation_add_applies_left_operand_first() {
    let about_k = quarter_turn_about_k();
    let about_i = Rotation3::new(q(1.0, 1.0, 0.0, 0.0));
    let v = Vector3::i_hat();
    // about k first: x -> y; then about i: y -> z
    let both = about_k.add(&about_i);
    assert_eq!(both.rotate_vector(&v), Vector3::k_hat());
    assert_eq!(both.rotate_vector(&v), about_i.rotate_vector(&about_k.rotate_vector(&v)));
    // the other order: about i leaves x alone; then about k: x -> y
    let other = about_i.add(&about_k);
    assert_eq!(other.rotate_vector(&v), Vector3::j_hat());
    assert_ne!(both, other);
    assert_eq!(both.q, about_i.q.mul(&about_k.q));
}

#[test]
fn rotation_sub_then_add_gives_back() {
    let a = Rotation3::new(q(1.0, 2.0, -3.0, 0.5));
    let b = Rotation3::new(q(0.0, 1.0, 1.0, -2.0));
    assert_eq!(a.sub(&b).add(&b), a);
    assert_eq!(a.sub(&b).q, b.q.inverse().mul(&a.q));
    assert_eq!(a.sub(&a), Rotation3::identity());
}

#[test]
fn rotation_that_cannot_be_inverted_is_told() {
    let none = Rotation3::new(q(0.0, 0.0, 0.0, 0.0));
    assert!(!none.is_invertible());
    assert!(quarter_turn_about_k().is_invertible());
}

#[test]
fn shorter_arc_picks_the_quaternion_with_scalar_part_not_negative() {
    // three quarters of a turn about k: the same rotation as a quarter turn back
    let long = Rotation3::new(q(-1.0, 0.0, 0.0, 1.0));
    let short = long.shorter_arc();
    assert_eq!(short.q, q(1.0, 0.0, 0.0, -1.0));
    let v = v3(1.0, 2.0, 3.0);
    assert_eq!(short.rotate_vector(&v), long.rotate_vector(&v));
    assert_eq!(long.rotate_vector(&Vector3::i_hat()), Vector3::j_hat().neg());
    // already short: unchanged, also with scalar part zero
    let quarter = quarter_turn_about_k();
    assert_eq!(quarter.shorter_arc(), quarter);
    let half = Rotation3::new(q(0.0, 0.0, 0.0, 1.0));
    assert_eq!(half.shorter_arc(), half);
}

#[test]
fn pose_composition_examples() {
    let fwd1r90 = Pose3::new(Vector3::i_hat(), quarter_turn_about_k());
    let r90 = Pose3::new(Vector3::zero(), quarter_turn_about_k());
    let half_turn = quarter_turn_about_k().add(&quarter_turn_about_k());
    assert_eq!(fwd1r90.add(&r90), Pose3::new(Vector3::i_hat(), half_turn.clone()));
    assert_eq!(r90.add(&fwd1r90), Pose3::new(Vector3::j_hat(), half_turn));
}

#[test]
fn pose_followed_by_inverse_is_identity() {
    let fwd1r90 = Pose3::new(Vector3::i_hat(), quarter_turn_about_k());
    let id = Pose3::identity();
    assert_eq!(fwd1r90.add(&fwd1r90.neg()), id);
    assert_eq!(fwd1r90.neg().add(&fwd1r90), id);
    let p = Pose3::new(v3(0.5, -2.0, 7.0), Rotation3::new(q(1.0, 2.0, -3.0, 0.5)));
    assert_eq!(p.add(&p.neg()), id);
    assert_eq!(p.neg().add(&p), id);
    assert_eq!(p.neg().neg(), p);
}

#[test]
fn pose_inverse_of_the_example() {
    let fwd1r90 = Pose3::new(Vector3::i_hat(), quarter_turn_about_k());
    let back = fwd1r90.neg();
    // turned back by a quarter, the step along -x becomes a step along +y
    assert_eq!(back.position, v3(0.0, 1.0, 0.0));
    assert_eq!(back.orientation, quarter_turn_about_k().neg());
}

#[test]
fn pose_composition_does_not_commute() {
    let fwd1r90 = Pose3::new(Vector3::i_hat(), quarter_turn_about_k());
    let r90 = Pose3::new(Vector3::zero(), quarter_turn_about_k());
    assert_ne!(r90.add(&fwd1r90), fwd1r90.add(&r90));
}

#[test]
fn pose_identity_is_neutral() {
    let p = Pose3::new(v3(0.5, -2.0, 7.0), Rotation3::new(q(1.0, 2.0, -3.0, 0.5)));
    let id = Pose3::identity();
    assert_eq!(p.add(&id), p);
    assert_eq!(id.add(&p), p);
}

#[test]
fn pose_sub_is_the_pose_seen_from_another() {
    let a = Pose3::new(v3(2.0, 1.0, 0.0), quarter_turn_about_k());
    let b = Pose3::new(v3(1.0, 1.0, 0.0), quarter_turn_about_k());
    let seen = a.sub(&b);
    // one step along x in the world is one step along -y for b, which is turned by a quarter
    assert_eq!(seen.position, v3(0.0, -1.0, 0.0));
    assert_eq!(seen.orientation, Rotation3::identity());
    assert_eq!(a.sub(&a), Pose3::identity());
}

/// The rotation about the axis along `v` by the angle that is the length of
/// `v`, with the length, the cosine and the sine computed in doubles.
fn from_axis_angle(v: &Vector3) -> Rotation3 {
    let sq = v.magnitude_squared();
    let theta = to_f64(&sq).sqrt();
    Rotation3::from_axis_angle(v, &s(theta), &s((theta / 2.0).cos()), &s((theta / 2.0).sin()))
}

/// A scalar as a double, for scalars of moderate size.
fn to_f64(x: &Scalar) -> f64 {
    let part = |limbs: Vec<u32>| limbs.iter().rev().fold(0.0f64, |acc, l| acc * 4294967296.0 + *l as f64);
    let num = x.numerator();
    let value = part(num.abs().to_limbs()) / part(x.denominator().to_limbs());
    if num.is_negative() {
        -value
    } else {
        value
    }
}

/// The fraction `t` of a rotation, with the arc cosine and the length of the
/// axis computed in doubles.
fn scale_rotation(r: &Rotation3, t: f64) -> Rotation3 {
    let [half_angle, axis_length, theta] = scale_inputs(r, t);
    r.scale(
        &s(t),
        &s(half_angle),
        &s(axis_length),
        &s(theta),
        &s((theta / 2.0).cos()),
        &s((theta / 2.0).sin()),
    )
}

/// The half angle and the length of the axis of a rotation, and the angle of
/// its fraction `t`, computed in doubles.
fn scale_inputs(r: &Rotation3, t: f64) -> [f64; 3] {
    let n = to_f64(&r.q.norm_squared()).sqrt();
    let half_angle = (to_f64(&r.q.w).abs() / n).min(1.0).acos();
    let axis_length = to_f64(&r.q.get_vector().magnitude_squared()).sqrt();
    [half_angle, axis_length, (2.0 * t * half_angle).abs()]
}

/// The fraction `t` of a pose, with the values of the angles computed in doubles.
fn scale_pose(p: &Pose3, t: f64) -> Pose3 {
    let [half_angle, axis_length, theta] = scale_inputs(&p.orientation, t);
    p.scale(
        &s(t),
        &s(half_angle),
        &s(axis_length),
        &s(theta),
        &s((theta / 2.0).cos()),
        &s((theta / 2.0).sin()),
    )
}

fn close(a: &Rotation3, b: &Rotation3, tolerance: f64) -> bool {
    let d = a.q.sub(&b.q).norm_squared();
    d.less_than(&s(tolerance * tolerance))
}

#[test]
fn from_axis_angle_with_exact_values() {
    let axis = Vector3::k_hat().scale(&s(2.0));
    let c = Scalar::from_ratio(3, 5).unwrap();
    let sn = Scalar::from_ratio(4, 5).unwrap();
    let r = Rotation3::from_axis_angle(&axis, &s(2.0), &c, &sn);
    assert_eq!(r.q, Quaternion::new(c, Scalar::zero(), Scalar::zero(), sn));
    let tiny = Vector3::k_hat().scale(&s(1e-12));
    assert_eq!(
        Rotation3::from_axis_angle(&tiny, &s(1e-12), &s(1.0), &s(0.0)),
        Rotation3::identity()
    );
}

#[test]
fn from_axis_angle_quarter_turn() {
    let r = from_axis_angle(&Vector3::k_hat().scale(&s(std::f64::consts::FRAC_PI_2)));
    let image = r.rotate_vector(&Vector3::i_hat());
    assert!(image.dist_squared_to(&Vector3::j_hat()).less_than(&s(1e-24)));
}

#[test]
fn scaled_axis_angle_takes_the_shorter_arc() {
    // the scalar part 3/5 and the vector part 4/5 k: half the angle has the cosine 3/5
    let short = Rotation3::new(q(0.6, 0.0, 0.0, 0.8));
    let v = short.scaled_axis_angle(&s(0.5), &s(1.0), &s(0.8));
    assert_eq!(v, v3(0.0, 0.0, 1.0));
    // the same rotation by the other quaternion: the axis comes out the same
    let long = Rotation3::new(q(-0.6, 0.0, 0.0, -0.8));
    let w = long.scaled_axis_angle(&s(0.5), &s(1.0), &s(0.8));
    assert_eq!(w, v3(0.0, 0.0, 1.0));
    // no axis: no rotation vector
    let none = Rotation3::identity();
    assert!(none.scaled_axis_angle(&s(0.5), &s(0.0), &Scalar::zero()).is_zero());
}

#[test]
fn half_of_a_rotation_beyond_a_half_turn_goes_the_short_way() {
    // three quarters of a turn about k is a quarter turn about -k
    let theta = 1.5 * std::f64::consts::PI;
    let r = from_axis_angle(&Vector3::k_hat().scale(&s(theta)));
    let half = scale_rotation(&r, 0.5);
    let expected = from_axis_angle(&Vector3::k_hat().scale(&s(-std::f64::consts::FRAC_PI_4)));
    assert!(close(&half, &expected, 1e-9));
    let naive = from_axis_angle(&Vector3::k_hat().scale(&s(theta / 2.0)));
    assert!(!close(&half, &naive, 1e-3));
}

#[test]
fn axis_angle_round_trip() {
    let v = v3(0.3, -0.4, 1.2);
    let r = from_axis_angle(&v);
    let n = to_f64(&r.q.norm_squared()).sqrt();
    let half_angle = (to_f64(&r.q.w).abs() / n).min(1.0).acos();
    let axis_length = to_f64(&r.q.get_vector().magnitude_squared()).sqrt();
    let back = r.scaled_axis_angle(&Scalar::one(), &s(half_angle), &s(axis_length));
    assert!(back.dist_squared_to(&v).less_than(&s(1e-18)));
}

#[test]
fn pose_scaled_is_not_pose_repeated() {
    let quarter = from_axis_angle(&Vector3::k_hat().scale(&s(std::f64::consts::FRAC_PI_2)));
    let fwd1r90 = Pose3::new(Vector3::i_hat(), quarter.clone());
    let scaled = scale_pose(&fwd1r90, 1.5);
    let expected_turn =
        from_axis_angle(&Vector3::k_hat().scale(&s(std::f64::consts::PI * 0.75)));
    assert_eq!(scaled.position, v3(1.5, 0.0, 0.0));
    assert!(close(&scaled.orientation, &expected_turn, 1e-9));
    let twice = fwd1r90.add(&fwd1r90);
    let doubled = scale_pose(&fwd1r90, 2.0);
    assert_eq!(doubled.position, v3(2.0, 0.0, 0.0));
    assert_ne!(twice, doubled);
    assert_ne!(twice, scaled);
}

#[test]
fn scale_with_exact_values() {
    // the rotation with the half-angle cosine 3/5 and sine 4/5 about k, handed
    // stand-ins for the angles: half angle 1, so the whole angle is 2
    let r = Rotation3::new(Quaternion::new(
        Scalar::from_ratio(3, 5).unwrap(),
        Scalar::zero(),
        Scalar::zero(),
        Scalar::from_ratio(4, 5).unwrap(),
    ));
    let c = Scalar::from_ratio(5, 13).unwrap();
    let sn = Scalar::from_ratio(12, 13).unwrap();
    let four_fifths = Scalar::from_ratio(4, 5).unwrap();
    // half of it: the rotation vector is k times 0.5 * 2 * 1 = 1
    let half = r.scale(&s(0.5), &s(1.0), &four_fifths, &s(1.0), &c, &sn);
    assert_eq!(half.q, Quaternion::new(c.clone(), Scalar::zero(), Scalar::zero(), sn.clone()));
    // the same rotation by the other quaternion turns the other way round
    let long = Rotation3::new(r.q.scale(&s(-1.0)));
    let half_long = long.scale(&s(0.5), &s(1.0), &four_fifths, &s(1.0), &c, &sn);
    assert_eq!(half_long.q, Quaternion::new(c.clone(), Scalar::zero(), Scalar::zero(), sn.clone()));
    // a rotation with negative cosine made about k: its half turns about -k
    let wide = Rotation3::from_axis_angle(
        &Vector3::k_hat().scale(&s(4.0)),
        &s(4.0),
        &Scalar::from_ratio(-3, 5).unwrap(),
        &four_fifths,
    );
    let half_wide = wide.scale(&s(0.5), &s(1.0), &four_fifths, &s(1.0), &c, &sn);
    assert_eq!(half_wide.q, Quaternion::new(c.clone(), Scalar::zero(), Scalar::zero(), sn.neg()));
    // a pose is scaled in both parts
    let p = Pose3::new(v3(2.0, 0.0, -4.0), r);
    let q = p.scale(&s(0.5), &s(1.0), &four_fifths, &s(1.0), &c, &sn);
    assert_eq!(q.position, v3(1.0, 0.0, -2.0));
    assert_eq!(q.orientation, half);
}
