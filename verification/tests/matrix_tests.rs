use yagl::scalar::Scalar;
use yagl::utils::matrix::Matrix3;
use yagl::vectors::Vector3;

fn s(x: f64) -> Scalar {
    Scalar::from_double_bits(x.to_bits()).unwrap()
}

fn v3(x: f64, y: f64, z: f64) -> Vector3 {
    Vector3::new(s(x), s(y), s(z))
}

fn m(rows: [[f64; 3]; 3]) -> Matrix3 {
    Matrix3::new([
        [s(rows[0][0]), s(rows[0][1]), s(rows[0][2])],
        [s(rows[1][0]), s(rows[1][1]), s(rows[1][2])],
        [s(rows[2][0]), s(rows[2][1]), s(rows[2][2])],
    ])
}

#[test]
fn matrix_determinant() {
    assert_eq!(Matrix3::identity().determinant(), s(1.0));
    let a = m([[2.0, 0.0, 1.0], [1.0, 3.0, 2.0], [1.0, 1.0, 1.0]]);
    assert_eq!(a.determinant(), s(0.0));
    let b = m([[2.0, 0.0, 1.0], [1.0, 3.0, 2.0], [1.0, 1.0, 4.0]]);
    assert_eq!(b.determinant(), s(18.0));
}

#[test]
fn matrix_inverse() {
    assert_eq!(Matrix3::identity().inverse(), Some(Matrix3::identity()));
    let b = m([[2.0, 0.0, 1.0], [1.0, 3.0, 2.0], [1.0, 1.0, 4.0]]);
    let inv = b.inverse().unwrap();
    let eighteenth = Scalar::from_ratio(1, 18).unwrap();
    let expected = m([[10.0, 1.0, -3.0], [-2.0, 7.0, -3.0], [-2.0, -2.0, 6.0]]).scale(&eighteenth);
    assert_eq!(inv, expected);
    let v = v3(1.0, -2.0, 0.5);
    assert_eq!(inv.apply(&b.apply(&v)), v);
    assert_eq!(b.apply(&inv.apply(&v)), v);
}

#[test]
fn matrix_without_inverse() {
    let a = m([[2.0, 0.0, 1.0], [1.0, 3.0, 2.0], [1.0, 1.0, 1.0]]);
    assert_eq!(a.inverse(), None);
    let zero = m([[0.0; 3]; 3]);
    assert_eq!(zero.inverse(), None);
}

#[test]
fn matrix_times_vector() {
    let a = m([[1.0, 2.0, 3.0], [4.0, 5.0, 6.0], [7.0, 8.0, 9.0]]);
    assert_eq!(a.apply(&v3(1.0, 0.0, -1.0)), v3(-2.0, -2.0, -2.0));
    assert_eq!(Matrix3::identity().apply(&v3(1.0, 2.0, 3.0)), v3(1.0, 2.0, 3.0));
}

#[test]
fn matrix_rows_and_entries() {
    let a = m([[1.0, 2.0, 3.0], [4.0, 5.0, 6.0], [7.0, 8.0, 9.0]]);
    assert_eq!(a.row_vectors(), vec![v3(1.0, 2.0, 3.0), v3(4.0, 5.0, 6.0), v3(7.0, 8.0, 9.0)]);
    let flat = a.flat_array();
    for i in 0..9 {
        assert_eq!(flat[i], Scalar::from_int(i as i64 + 1));
    }
    assert_eq!(Matrix3::from_flat(flat), a);
}

#[test]
fn matrix_negation_and_scaling() {
    let a = m([[1.0, 2.0, 3.0], [4.0, 5.0, 6.0], [7.0, 8.0, 9.0]]);
    assert_eq!(a.neg(), m([[-1.0, -2.0, -3.0], [-4.0, -5.0, -6.0], [-7.0, -8.0, -9.0]]));
    assert_eq!(a.scale(&s(0.5)), m([[0.5, 1.0, 1.5], [2.0, 2.5, 3.0], [3.5, 4.0, 4.5]]));
    assert_eq!(a.scale(&s(-1.0)), a.neg());
}

#[test]
fn matrix_is_cloned_whole() {
    let a = m([[1.0, 2.0, 3.0], [4.0, 5.0, 6.0], [7.0, 8.0, 10.0]]);
    assert_eq!(a.clone(), a);
    assert_eq!(a.clone().determinant(), s(-3.0));
}
