use yagl::gon::{Polygon, Triangle};
use yagl::ray::Ray;
use yagl::scalar::Scalar;
use yagl::simple_plane::Intersection;
use yagl::simple_tri::SimpleTriangle;
use yagl::vectors::{Vector2, Vector3};

fn s(x: f64) -> Scalar {
    Scalar::from_double_bits(x.to_bits()).unwrap()
}

fn v3(x: f64, y: f64, z: f64) -> Vector3 {
    Vector3::new(s(x), s(y), s(z))
}

fn v2(x: f64, y: f64) -> Vector2 {
    Vector2::new(s(x), s(y))
}

fn right_triangle() -> SimpleTriangle {
    SimpleTriangle::new(v3(0.0, 0.0, 0.0), v3(2.0, 0.0, 0.0), v3(0.0, 2.0, 0.0))
}

#[test]
fn triangle_normal_has_the_length_of_the_area() {
    let t = right_triangle();
    assert_eq!(t.normal(), v3(0.0, 0.0, 2.0));
    let flipped = SimpleTriangle::new(v3(0.0, 0.0, 0.0), v3(0.0, 2.0, 0.0), v3(2.0, 0.0, 0.0));
    assert_eq!(flipped.normal(), v3(0.0, 0.0, -2.0));
}

#[test]
fn triangle_center_is_the_mean_of_the_corners() {
    let t = SimpleTriangle::new(v3(0.0, 0.0, 3.0), v3(3.0, 0.0, 0.0), v3(0.0, 6.0, 0.0));
    assert_eq!(t.center(), v3(1.0, 2.0, 1.0));
    let ray = t.normal_ray();
    assert_eq!(ray.origin, t.center());
    assert_eq!(ray.direction, t.normal());
}

#[test]
fn triangle_point_inside_on_edge_and_outside() {
    let t = right_triangle();
    assert_eq!(
        t.point_intersects(&v3(0.5, 0.5, 0.0)),
        Intersection::Once(v3(0.5, 0.5, 0.0))
    );
    assert_eq!(
        t.point_intersects(&v3(1.0, 0.0, 0.0)),
        Intersection::Edge(v3(1.0, 0.0, 0.0))
    );
    assert_eq!(
        t.point_intersects(&v3(0.0, 1.0, 0.0)),
        Intersection::Edge(v3(0.0, 1.0, 0.0))
    );
    assert_eq!(
        t.point_intersects(&v3(1.0, 1.0, 0.0)),
        Intersection::Edge(v3(1.0, 1.0, 0.0))
    );
    assert_eq!(
        t.point_intersects(&v3(0.0, 0.0, 0.0)),
        Intersection::Edge(v3(0.0, 0.0, 0.0))
    );
    assert_eq!(t.point_intersects(&v3(1.5, 1.0, 0.0)), Intersection::Never);
    assert_eq!(t.point_intersects(&v3(-0.5, 0.5, 0.0)), Intersection::Never);
    assert_eq!(t.point_intersects(&v3(0.5, -0.5, 0.0)), Intersection::Never);
}

#[test]
fn triangle_point_off_the_plane_is_outside() {
    let t = right_triangle();
    assert_eq!(t.point_intersects(&v3(0.5, 0.5, 1e-9)), Intersection::Never);
}

#[test]
fn triangle_without_extent_holds_no_point() {
    let flat = SimpleTriangle::new(v3(1.0, 1.0, 1.0), v3(1.0, 1.0, 1.0), v3(2.0, 1.0, 1.0));
    assert_eq!(flat.point_intersects(&v3(1.0, 1.0, 1.0)), Intersection::Never);
    let flat2 = SimpleTriangle::new(v3(1.0, 1.0, 1.0), v3(2.0, 1.0, 1.0), v3(1.0, 1.0, 1.0));
    assert_eq!(flat2.point_intersects(&v3(1.0, 1.0, 1.0)), Intersection::Never);
}

#[test]
fn triangle_ray_hits_inside() {
    let t = right_triangle();
    let ray = Ray::new(v3(0.5, 0.5, 3.0), v3(0.0, 0.0, -1.0));
    assert_eq!(t.ray_intersects(&ray), Intersection::Once(v3(0.5, 0.5, 0.0)));
    let slanted = Ray::new(v3(0.0, 0.0, 3.0), v3(1.0, 1.0, -6.0));
    assert_eq!(t.ray_intersects(&slanted), Intersection::Once(v3(0.5, 0.5, 0.0)));
}

#[test]
fn triangle_ray_hits_an_edge() {
    let t = right_triangle();
    let ray = Ray::new(v3(1.0, 1.0, 3.0), v3(0.0, 0.0, -1.0));
    assert_eq!(t.ray_intersects(&ray), Intersection::Edge(v3(1.0, 1.0, 0.0)));
}

#[test]
fn triangle_ray_misses() {
    let t = right_triangle();
    let beside = Ray::new(v3(3.0, 3.0, 3.0), v3(0.0, 0.0, -1.0));
    assert_eq!(t.ray_intersects(&beside), Intersection::Never);
    let away = Ray::new(v3(0.5, 0.5, 3.0), v3(0.0, 0.0, 1.0));
    assert_eq!(t.ray_intersects(&away), Intersection::Never);
    let parallel = Ray::new(v3(0.5, 0.5, 3.0), v3(1.0, 0.0, 0.0));
    assert_eq!(t.ray_intersects(&parallel), Intersection::Never);
    let inside = Ray::new(v3(0.5, 0.5, 0.0), v3(1.0, 0.0, 0.0));
    assert_eq!(t.ray_intersects(&inside), Intersection::LiesOn);
}

#[test]
fn triangle_ray_hit_is_judged_exactly() {
    // The hit point has thirds for coordinates, which no double holds.
    let t = SimpleTriangle::new(v3(0.0, 0.0, 1.0), v3(3.0, 0.0, 1.0), v3(0.0, 3.0, 1.0));
    let ray = Ray::new(Vector3::zero(), v3(1.0, 1.0, 3.0));
    let third = Scalar::from_ratio(1, 3).unwrap();
    let hit = Vector3::new(third.clone(), third, Scalar::one());
    assert_eq!(t.ray_intersects(&ray), Intersection::Once(hit));
}

#[test]
fn planar_triangle_area_is_signed() {
    let ccw = Triangle::new(v2(0.0, 0.0), v2(2.0, 0.0), v2(0.0, 3.0));
    let cw = Triangle::new(v2(0.0, 0.0), v2(0.0, 3.0), v2(2.0, 0.0));
    assert_eq!(ccw.area(), s(3.0));
    assert_eq!(cw.area(), s(-3.0));
}

#[test]
fn planar_triangle_holds_points() {
    let t = Triangle::new(v2(0.0, 0.0), v2(2.0, 0.0), v2(0.0, 2.0));
    assert!(t.point_intersects(&v2(0.5, 0.5)));
    assert!(t.point_intersects(&v2(1.0, 1.0)));
    assert!(t.point_intersects(&v2(0.0, 0.0)));
    assert!(!t.point_intersects(&v2(1.5, 1.0)));
    assert!(!t.point_intersects(&v2(-0.1, 0.5)));
    let flat = Triangle::new(v2(1.0, 1.0), v2(1.0, 1.0), v2(2.0, 2.0));
    assert!(!flat.point_intersects(&v2(1.0, 1.0)));
}

#[test]
fn polygon_area_by_fan() {
    let square = Polygon::new(vec![v2(1.0, 0.0), v2(2.0, 0.0), v2(2.0, 1.0), v2(1.0, 1.0)]);
    assert_eq!(square.area(), s(1.0));
    let clockwise = Polygon::new(vec![v2(1.0, 1.0), v2(2.0, 1.0), v2(2.0, 0.0), v2(1.0, 0.0)]);
    assert_eq!(clockwise.area(), s(-1.0));
    let pentagon = Polygon::new(vec![
        v2(0.0, 0.0),
        v2(4.0, 0.0),
        v2(4.0, 2.0),
        v2(2.0, 4.0),
        v2(0.0, 2.0),
    ]);
    assert_eq!(pentagon.area(), s(12.0));
}

#[test]
fn polygon_with_fewer_than_three_corners_has_no_area() {
    assert!(Polygon::new(Vec::new()).area().is_zero());
    assert!(Polygon::new(vec![v2(1.0, 1.0)]).area().is_zero());
    assert!(Polygon::new(vec![v2(1.0, 1.0), v2(2.0, 3.0)]).area().is_zero());
}

#[test]
fn flat_shapes_are_cloned_whole() {
    let pentagon = Polygon::new(vec![
        v2(0.0, 0.0),
        v2(4.0, 0.0),
        v2(4.0, 2.0),
        v2(2.0, 4.0),
        v2(0.0, 2.0),
    ]);
    let copy = pentagon.clone();
    assert_eq!(copy, pentagon);
    assert_eq!(copy.area(), s(12.0));
    let t = Triangle::new(v2(0.0, 0.0), v2(2.0, 0.0), v2(0.0, 3.0));
    assert_eq!(t.clone().area(), s(3.0));
    let tri = right_triangle();
    assert_eq!(tri.clone(), tri);
}

#[test]
fn triangle_area_squared() {
    assert_eq!(right_triangle().area_squared(), s(4.0));
    // edges 3 and 4 at a right angle, in a slanted plane: area 6
    let t = SimpleTriangle::new(v3(0.0, 0.0, 0.0), v3(3.0, 0.0, 0.0), v3(0.0, 2.4, 3.2));
    let gap = t.area_squared().sub(&s(36.0));
    assert!(gap.less_than(&s(1e-12)) && s(-1e-12).less_than(&gap));
    let flat = SimpleTriangle::new(v3(1.0, 1.0, 1.0), v3(2.0, 2.0, 2.0), v3(3.0, 3.0, 3.0));
    assert!(flat.area_squared().is_zero());
}

#[test]
fn triangle_without_a_right_angle_is_judged_by_projections() {
    // (1.9, 0.1) lies inside, but its projections on the edges at the first
    // corner are 0.95 and 0.42, which sum to more than one
    let t = Triangle::new(v2(0.0, 0.0), v2(2.0, 0.0), v2(1.0, 2.0));
    assert!(!t.point_intersects(&v2(1.9, 0.1)));
    assert!(t.point_intersects(&v2(0.5, 0.5)));
    let in_space = SimpleTriangle::new(v3(0.0, 0.0, 0.0), v3(2.0, 0.0, 0.0), v3(1.0, 2.0, 0.0));
    assert_eq!(in_space.point_intersects(&v3(1.9, 0.1, 0.0)), Intersection::Never);
}

#[test]
fn right_angled_triangle_holds_the_points_of_its_frame() {
    // the corner (1, 1, 1) with the orthogonal edges (2, 0, 0) and (0, 1, 1)
    let t = SimpleTriangle::new(v3(1.0, 1.0, 1.0), v3(3.0, 1.0, 1.0), v3(1.0, 2.0, 2.0));
    // a + 0.25 (b - a) + 0.5 (c - a)
    let inside = v3(1.5, 1.5, 1.5);
    assert_eq!(t.point_intersects(&inside), Intersection::Once(inside.clone()));
    // a + 0.5 (b - a) + 0.5 (c - a)
    let on_edge = v3(2.0, 1.5, 1.5);
    assert_eq!(t.point_intersects(&on_edge), Intersection::Edge(on_edge.clone()));
    // a + 0.75 (b - a) + 0.5 (c - a)
    assert_eq!(t.point_intersects(&v3(2.5, 1.5, 1.5)), Intersection::Never);
}
