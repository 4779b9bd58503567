use yagl::gon::Polygon;
use yagl::hedron::Tetrahedron;
use yagl::scalar::Scalar;
use yagl::vectors::{Vector2, Vector3};

fn s(x: f64) -> Scalar {
    Scalar::from_double_bits(x.to_bits()).unwrap()
}

fn v3(x: f64, y: f64, z: f64) -> Vector3 {
    Vector3::new(s(x), s(y), s(z))
}

fn v2(x: f64, y: f64) -> Vector2 {
    Vector2::new(s(x), s(y))
}

#[test]
fn test_vectors() {
    let i = v3(1.0, 0.0, 0.0);
    let j = v3(0.0, 1.0, 0.0);
    let k = v3(0.0, 0.0, 1.0);

    assert_eq!(i.add(&j), v3(1.0, 1.0, 0.0));
    assert_eq!(i.sub(&j), v3(1.0, -1.0, 0.0));
    assert_eq!(i.dot(&j), s(0.0));
    assert_eq!(j.dot(&k), s(0.0));
    assert_eq!(i.cross(&j), k);
    assert_eq!(j.cross(&i), k.neg());
    assert_eq!(i.cross(&j.scale(&s(2.0))), k.scale(&s(2.0)));
}

#[test]
fn test_hedron() {
    let hedr = Tetrahedron::new(
        Vector3::zero(),
        Vector3::i_hat().scale(&s(3.0)),
        Vector3::j_hat().scale(&s(3.0)),
        Vector3::k_hat().neg().scale(&s(3.0)),
    );
    assert_eq!(hedr.volume(), s(-4.5));
}

#[test]
fn test_triangle() {
    let poly = Polygon::new(vec![v2(1.0, 0.0), v2(2.0, 0.0), v2(2.0, 1.0), v2(1.0, 1.0)]);
    assert_eq!(poly.area(), s(1.0));
}
