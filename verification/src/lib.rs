//! Geometry of the plane and of space in exact arithmetic.
//!
//! Vectors, quaternions, rotations and poses; lines, rays, segments, planes
//! and triangles with the tests of how they meet; polygons, tetrahedra and
//! polyhedra with their areas and volumes; and a least-squares fit of a plane.
//!
//! Every number is a [`scalar::Scalar`], a rational number of arbitrary
//! precision. Sums, products and quotients are exact, so a test such as
//! "is this ray parallel to that plane" has one answer, and the laws of the
//! algebra hold as equations: they are proved here, over the real numbers
//! that the scalars stand for. Each type has a view, its mathematical model,
//! and each function states its result over the views.
//!
//! Exact scalars have no square root and no sine. A function whose result
//! needs a length or a trigonometric value takes that value as an argument:
//! the caller computes it, to the precision the caller has, and the function
//! does the rest.
pub mod gon;
pub mod hedron;
pub mod line;
pub mod pose3;
pub mod quaternion;
pub mod ray;
pub mod rotation3;
pub mod scalar;
pub mod simple_plane;
pub mod simple_tri;
pub mod utils;
pub mod vectors;
