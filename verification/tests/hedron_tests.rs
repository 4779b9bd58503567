use yagl::hedron::{Polyhedron, Tetrahedron};
use yagl::scalar::Scalar;
use yagl::simple_tri::SimpleTriangle;
use yagl::vectors::Vector3;

fn s(x: f64) -> Scalar {
    Scalar::from_double_bits(x.to_bits()).unwrap()
}

fn v3(x: f64, y: f64, z: f64) -> Vector3 {
    Vector3::new(s(x), s(y), s(z))
}

#[test]
fn tetrahedron_volume_is_signed() {
    let right = Tetrahedron::new(Vector3::zero(), v3(3.0, 0.0, 0.0), v3(0.0, 3.0, 0.0), v3(0.0, 0.0, 3.0));
    assert_eq!(right.volume(), s(4.5));
    let left = Tetrahedron::new(Vector3::zero(), v3(3.0, 0.0, 0.0), v3(0.0, 3.0, 0.0), v3(0.0, 0.0, -3.0));
    assert_eq!(left.volume(), s(-4.5));
    let flat = Tetrahedron::new(Vector3::zero(), v3(1.0, 0.0, 0.0), v3(0.0, 1.0, 0.0), v3(1.0, 1.0, 0.0));
    assert!(flat.volume().is_zero());
}

#[test]
fn tetrahedron_from_points_keeps_edges_from_the_first() {
    let t = Tetrahedron::from_points(
        v3(1.0, 1.0, 1.0),
        v3(2.0, 1.0, 1.0),
        v3(1.0, 3.0, 1.0),
        v3(1.0, 1.0, 4.0),
    );
    assert_eq!(t.origin, v3(1.0, 1.0, 1.0));
    assert_eq!(t.a, v3(1.0, 0.0, 0.0));
    assert_eq!(t.b, v3(0.0, 2.0, 0.0));
    assert_eq!(t.c, v3(0.0, 0.0, 3.0));
    assert_eq!(t.pt_1(), v3(1.0, 1.0, 1.0));
    assert_eq!(t.pt_2(), v3(2.0, 1.0, 1.0));
    assert_eq!(t.pt_3(), v3(1.0, 3.0, 1.0));
    assert_eq!(t.pt_4(), v3(1.0, 1.0, 4.0));
    assert_eq!(t.volume(), s(1.0));
}

#[test]
fn tetrahedron_holds_points() {
    let t = Tetrahedron::new(Vector3::zero(), v3(2.0, 0.0, 0.0), v3(0.0, 2.0, 0.0), v3(0.0, 0.0, 2.0));
    assert!(t.point_in(&v3(0.25, 0.25, 0.25)));
    assert!(t.point_in(&v3(0.0, 0.0, 0.0)));
    assert!(t.point_in(&v3(2.0, 0.0, 0.0)));
    assert!(!t.point_in(&v3(1.0, 1.0, 1.0)));
    assert!(!t.point_in(&v3(-0.1, 0.1, 0.1)));
    let flat = Tetrahedron::new(Vector3::zero(), v3(2.0, 0.0, 0.0), Vector3::zero(), v3(0.0, 0.0, 2.0));
    assert!(!flat.point_in(&v3(0.0, 0.0, 0.0)));
}

#[test]
fn tetrahedron_surface_has_four_faces() {
    let t = Tetrahedron::new(Vector3::zero(), v3(1.0, 0.0, 0.0), v3(0.0, 1.0, 0.0), v3(0.0, 0.0, 1.0));
    let faces = t.surface();
    assert_eq!(faces[0], SimpleTriangle::new(t.pt_1(), t.pt_3(), t.pt_2()));
    assert_eq!(faces[1], SimpleTriangle::new(t.pt_1(), t.pt_4(), t.pt_3()));
    assert_eq!(faces[2], SimpleTriangle::new(t.pt_1(), t.pt_2(), t.pt_4()));
    assert_eq!(faces[3], SimpleTriangle::new(t.pt_2(), t.pt_3(), t.pt_4()));
    // the volume is positive, so the normals point outward
    assert_eq!(faces[0].normal(), v3(0.0, 0.0, -0.5));
    assert_eq!(faces[3].normal(), v3(0.5, 0.5, 0.5));
}

#[test]
fn polyhedron_checked_constructors_are_not_available() {
    let points = vec![Vector3::zero(), Vector3::i_hat(), Vector3::j_hat()];
    let faces = vec![(0, 1, 2)];
    assert_eq!(Polyhedron::new(points.clone(), faces.clone()), Err("NOIMPL".to_string()));
    assert_eq!(Polyhedron::new_autofix(points, faces), Err("NOIMPL".to_string()));
}

#[test]
fn polyhedron_indices_are_checked_on_request() {
    let points = vec![Vector3::zero(), Vector3::i_hat(), Vector3::j_hat()];
    assert!(Polyhedron::indices_in_range(&points, &vec![(0, 1, 2), (2, 1, 0)]));
    assert!(!Polyhedron::indices_in_range(&points, &vec![(0, 1, 2), (2, 3, 0)]));
    assert!(!Polyhedron::indices_in_range(&points, &vec![(3, 1, 2)]));
    assert!(!Polyhedron::indices_in_range(&points, &vec![(0, 1, 3)]));
    assert!(Polyhedron::indices_in_range(&points, &Vec::new()));
    assert!(!Polyhedron::indices_in_range(&Vec::new(), &vec![(0, 0, 0)]));
}

#[test]
fn cube_has_volume_one() {
    let cube = Polyhedron::cube();
    assert_eq!(cube.get_volume(), s(1.0));
    assert_eq!(cube.get_points().len(), 8);
    let faces = cube.get_faces();
    assert_eq!(faces.len(), 12);
    assert_eq!(
        faces[0],
        SimpleTriangle::new(Vector3::zero(), Vector3::j_hat(), Vector3::i_hat())
    );
    assert_eq!(
        faces[8],
        SimpleTriangle::new(v3(1.0, 0.0, 1.0), v3(1.0, 1.0, 0.0), v3(1.0, 1.0, 1.0))
    );
    // every face points outward: away from the middle of the cube
    let middle = v3(0.5, 0.5, 0.5);
    for f in faces.iter() {
        let outward = f.center().sub(&middle);
        assert!(f.normal().dot(&outward).is_positive());
    }
}

#[test]
fn polyhedron_faces_are_numbered_from_one_for_mesh_files() {
    let cube = Polyhedron::cube();
    let faces = cube.get_obj_faces();
    assert_eq!(faces.len(), 12);
    assert_eq!(faces[0], (1, 3, 2));
    assert_eq!(faces[3], (7, 2, 3));
    assert_eq!(faces[11], (6, 2, 7));
}

#[test]
fn polyhedron_from_given_faces() {
    let points = vec![Vector3::zero(), v3(3.0, 0.0, 0.0), v3(0.0, 3.0, 0.0), v3(0.0, 0.0, 3.0)];
    let faces = vec![(0, 2, 1), (0, 3, 2), (0, 1, 3), (1, 2, 3)];
    assert!(Polyhedron::indices_in_range(&points, &faces));
    let solid = Polyhedron::new_unchecked(points, faces);
    assert_eq!(solid.get_volume(), s(4.5));
    assert_eq!(solid.get_faces().len(), 4);
    let empty = Polyhedron::new_unchecked(Vec::new(), Vec::new());
    assert!(empty.get_volume().is_zero());
    assert!(empty.get_faces().is_empty());
}

#[test]
fn solids_are_cloned_whole() {
    let cube = Polyhedron::cube();
    let copy = cube.clone();
    assert_eq!(copy, cube);
    assert_eq!(copy.get_volume(), s(1.0));
    let t = Tetrahedron::from_points(
        v3(1.0, 1.0, 1.0),
        v3(2.0, 1.0, 1.0),
        v3(1.0, 3.0, 1.0),
        v3(1.0, 1.0, 4.0),
    );
    assert_eq!(t.clone(), t);
}
