use yagl::ray::Ray;
use yagl::scalar::Scalar;
use yagl::vectors::Vector3;

fn s(x: f64) -> Scalar {
    Scalar::from_double_bits(x.to_bits()).unwrap()
}

fn v3(x: f64, y: f64, z: f64) -> Vector3 {
    Vector3::new(s(x), s(y), s(z))
}

#[test]
fn ray_points_towards_or_away() {
    let pt = v3(2.0, 1.0, 5.0);
    assert_eq!(Ray::new(v3(2.0, 1.0, 5.0), v3(1.0, 0.0, 0.0)).points_away(&pt), 0);
    assert_eq!(Ray::new(v3(3.0, 2.0, 6.0), v3(1.0, 0.0, 0.0)).points_away(&pt), 1);
    assert_eq!(Ray::new(v3(3.0, 2.0, 6.0), v3(-1.0, 0.0, 0.0)).points_away(&pt), -1);
    assert_eq!(Ray::new(v3(3.0, 2.0, 6.0), v3(-1.0, 1.0, 0.0)).points_away(&pt), 0);
}

#[test]
fn ray_keeps_its_direction_as_given() {
    let ray = Ray::new(v3(1.0, 2.0, 3.0), v3(0.0, 3.0, 4.0));
    assert_eq!(ray.origin, v3(1.0, 2.0, 3.0));
    assert_eq!(ray.direction, v3(0.0, 3.0, 4.0));
}
