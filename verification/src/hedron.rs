//! Tetrahedra and polyhedra.
use crate::scalar::Scalar;
use crate::simple_tri::{RealTriangle, SimpleTriangle};
use crate::utils::real_ring::{lemma_commute, lemma_multiply_divide, lemma_zero_one};
use crate::vectors::{
    lemma_dot_adds, lemma_dot_commutes, lemma_dot_scales, RealVec3, Vector3,
};
use vstd::prelude::*;

verus! {

/// A tetrahedron over the reals, given by one corner and the three edges that
/// leave it: the mathematical model of `Tetrahedron`.
pub struct RealTetrahedron {
    pub origin: RealVec3,
    pub a: RealVec3,
    pub b: RealVec3,
    pub c: RealVec3,
}

impl RealTetrahedron {
    /// The tetrahedron with the four corners given.
    pub open spec fn from_points(
        a: RealVec3,
        b: RealVec3,
        c: RealVec3,
        d: RealVec3,
    ) -> RealTetrahedron {
        RealTetrahedron { origin: a, a: b.sub(a), b: c.sub(a), c: d.sub(a) }
    }

    /// The signed volume, a sixth of the triple product of the edges: its sign
    /// tells the handedness of the three edges.
    pub open spec fn volume(self) -> real {
        self.a.dot(self.b.cross(self.c)) / 6real
    }

    pub open spec fn pt_1(self) -> RealVec3 {
        self.origin
    }

    pub open spec fn pt_2(self) -> RealVec3 {
        self.origin.add(self.a)
    }

    pub open spec fn pt_3(self) -> RealVec3 {
        self.origin.add(self.b)
    }

    pub open spec fn pt_4(self) -> RealVec3 {
        self.origin.add(self.c)
    }

    /// The coordinate of `point` along the edge `edge` from the origin, by
    /// projection on that edge. Where the three edges are orthogonal to each
    /// other, the three are the coordinates of the point in the frame of the
    /// edges; elsewhere they are the projections and no more.
    pub open spec fn coordinate(self, point: RealVec3, edge: RealVec3) -> real {
        point.sub(self.origin).dot(edge) / edge.norm_squared()
    }

    /// Whether one of the three edges has length zero.
    pub open spec fn degenerate(self) -> bool {
        self.a.norm_squared() == 0real || self.b.norm_squared() == 0real || self.c.norm_squared()
            == 0real
    }

    /// Whether the three edges are orthogonal to each other.
    pub open spec fn right_angled(self) -> bool {
        self.a.dot(self.b) == 0real && self.a.dot(self.c) == 0real && self.b.dot(self.c) == 0real
    }

    /// The point with the coordinates `x`, `y`, `z` in the frame of the three
    /// edges: the points of the tetrahedron are those with the three not
    /// negative and their sum at most one.
    pub open spec fn point_at(self, x: real, y: real, z: real) -> RealVec3 {
        self.origin.add(self.a.scale(x)).add(self.b.scale(y)).add(self.c.scale(z))
    }

    /// Whether the projections of the point on the three edges are not
    /// negative and sum to one at most. For a tetrahedron whose edges at the
    /// origin are orthogonal to each other this says that the point is in the
    /// tetrahedron; for another it is the rule of the projections, which is
    /// not membership.
    pub open spec fn point_in(self, point: RealVec3) -> bool {
        let x = self.coordinate(point, self.a);
        let y = self.coordinate(point, self.b);
        let z = self.coordinate(point, self.c);
        !self.degenerate() && x >= 0real && y >= 0real && z >= 0real && x + y + z <= 1real
    }

    /// The four faces. Where the volume is positive their normals point outward.
    pub open spec fn surface(self) -> Seq<RealTriangle> {
        seq![
            RealTriangle { a: self.pt_1(), b: self.pt_3(), c: self.pt_2() },
            RealTriangle { a: self.pt_1(), b: self.pt_4(), c: self.pt_3() },
            RealTriangle { a: self.pt_1(), b: self.pt_2(), c: self.pt_4() },
            RealTriangle { a: self.pt_2(), b: self.pt_3(), c: self.pt_4() },
        ]
    }
}

/// A tetrahedron: the corner `origin` and the three edges `a`, `b`, `c` that leave it.
#[derive(Debug, PartialEq)]
pub struct Tetrahedron {
    pub origin: Vector3,
    pub a: Vector3,
    pub b: Vector3,
    pub c: Vector3,
}

impl View for Tetrahedron {
    type V = RealTetrahedron;

    open spec fn view(&self) -> RealTetrahedron {
        RealTetrahedron { origin: self.origin@, a: self.a@, b: self.b@, c: self.c@ }
    }
}

impl Clone for Tetrahedron {
    fn clone(&self) -> (r: Self)
        ensures
            r@ == self@,
    {
        Tetrahedron {
            origin: self.origin.clone(),
            a: self.a.clone(),
            b: self.b.clone(),
            c: self.c.clone(),
        }
    }
}

impl Tetrahedron {
    pub fn new(origin: Vector3, a: Vector3, b: Vector3, c: Vector3) -> (r: Tetrahedron)
        ensures
            r@ == (RealTetrahedron { origin: origin@, a: a@, b: b@, c: c@ }),
    {
        Tetrahedron { origin, a, b, c }
    }

    /// The tetrahedron with the four corners given.
    pub fn from_points(a: Vector3, b: Vector3, c: Vector3, d: Vector3) -> (r: Tetrahedron)
        ensures
            r@ == RealTetrahedron::from_points(a@, b@, c@, d@),
    {
        let ab: Vector3 = b.sub(&a);
        let ac: Vector3 = c.sub(&a);
        let ad: Vector3 = d.sub(&a);
        Tetrahedron::new(a, ab, ac, ad)
    }

    /// The signed volume.
    pub fn volume(&self) -> (r: Scalar)
        ensures
            r@ == self@.volume(),
    {
        let six: Scalar = Scalar::from_int(6);
        self.a.dot(&self.b.cross(&self.c)).div(&six)
    }

    pub fn pt_1(&self) -> (r: Vector3)
        ensures
            r@ == self@.pt_1(),
    {
        self.origin.clone()
    }

    pub fn pt_2(&self) -> (r: Vector3)
        ensures
            r@ == self@.pt_2(),
    {
        self.origin.add(&self.a)
    }

    pub fn pt_3(&self) -> (r: Vector3)
        ensures
            r@ == self@.pt_3(),
    {
        self.origin.add(&self.b)
    }

    pub fn pt_4(&self) -> (r: Vector3)
        ensures
            r@ == self@.pt_4(),
    {
        self.origin.add(&self.c)
    }

    /// Whether the point lies in the tetrahedron, by its projections on the
    /// three edges: exact where the edges are orthogonal to each other.
    pub fn point_in(&self, other: &Vector3) -> (r: bool)
        ensures
            r == self@.point_in(other@),
    {
        let other_adj: Vector3 = other.sub(&self.origin);
        let a_len: Scalar = self.a.magnitude_squared();
        let b_len: Scalar = self.b.magnitude_squared();
        let c_len: Scalar = self.c.magnitude_squared();
        if a_len.is_zero() || b_len.is_zero() || c_len.is_zero() {
            return false;
        }
        let x: Scalar = other_adj.dot(&self.a).div(&a_len);
        let y: Scalar = other_adj.dot(&self.b).div(&b_len);
        let z: Scalar = other_adj.dot(&self.c).div(&c_len);
        !x.is_negative() && !y.is_negative() && !z.is_negative() && x.add(&y).add(&z).at_most(
            &Scalar::one(),
        )
    }

    /// The four faces. Where the volume is positive their normals point
    /// outward; where it is negative they point inward.
    pub fn surface(&self) -> (r: [SimpleTriangle; 4])
        ensures
            r@.len() == 4,
            forall|i: int| 0 <= i < 4 ==> (#[trigger] r@[i])@ == self@.surface()[i],
    {
        [
            SimpleTriangle::new(self.pt_1(), self.pt_3(), self.pt_2()),
            SimpleTriangle::new(self.pt_1(), self.pt_4(), self.pt_3()),
            SimpleTriangle::new(self.pt_1(), self.pt_2(), self.pt_4()),
            SimpleTriangle::new(self.pt_2(), self.pt_3(), self.pt_4()),
        ]
    }
}

/// A polyhedron over the reals: its corners, and its faces as triples of
/// indices into the corners. It is the mathematical model of `Polyhedron`.
pub struct RealPolyhedron {
    pub points: Seq<RealVec3>,
    pub faces: Seq<(usize, usize, usize)>,
}

/// Whether every index of every face is the index of one of `n` corners.
pub open spec fn faces_in_range(n: nat, faces: Seq<(usize, usize, usize)>) -> bool {
    forall|i: int|
        0 <= i < faces.len() ==> (#[trigger] faces[i]).0 < n && faces[i].1 < n && faces[i].2 < n
}

/// The corners as real vectors.
pub open spec fn corners_view(points: Seq<Vector3>) -> Seq<RealVec3> {
    points.map_values(|p: Vector3| p@)
}

impl RealPolyhedron {
    /// The triangle of face `i`.
    pub open spec fn face(self, i: int) -> RealTriangle {
        RealTriangle {
            a: self.points[self.faces[i].0 as int],
            b: self.points[self.faces[i].1 as int],
            c: self.points[self.faces[i].2 as int],
        }
    }

    /// The signed volume of the tetrahedron between the first corner and face `i`.
    pub open spec fn face_volume(self, i: int) -> real {
        RealTetrahedron::from_points(
            self.points[0],
            self.points[self.faces[i].0 as int],
            self.points[self.faces[i].1 as int],
            self.points[self.faces[i].2 as int],
        ).volume()
    }

    /// The sum of `face_volume` over the first `upto` faces.
    pub open spec fn volume_upto(self, upto: int) -> real
        decreases upto,
    {
        if upto <= 0 {
            0real
        } else {
            self.volume_upto(upto - 1) + self.face_volume(upto - 1)
        }
    }

    /// The sum of the signed volumes between the first corner and every face:
    /// the enclosed volume, where the faces form a closed surface and all
    /// their normals point outward.
    pub open spec fn volume(self) -> real {
        self.volume_upto(self.faces.len() as int)
    }

    /// The unit cube between the origin and `(1, 1, 1)`, as twelve triangles.
    pub open spec fn cube() -> RealPolyhedron {
        RealPolyhedron {
            points: seq![
                RealVec3::zero(),
                RealVec3::i_hat(),
                RealVec3::j_hat(),
                RealVec3::k_hat(),
                RealVec3 { x: 0real, y: 1real, z: 1real },
                RealVec3 { x: 1real, y: 0real, z: 1real },
                RealVec3 { x: 1real, y: 1real, z: 0real },
                RealVec3 { x: 1real, y: 1real, z: 1real },
            ],
            faces: seq![
                (0usize, 2usize, 1usize),
                (0usize, 1usize, 3usize),
                (0usize, 3usize, 2usize),
                (6usize, 1usize, 2usize),
                (5usize, 3usize, 1usize),
                (4usize, 2usize, 3usize),
                (4usize, 5usize, 7usize),
                (4usize, 7usize, 6usize),
                (5usize, 6usize, 7usize),
                (4usize, 3usize, 5usize),
                (4usize, 6usize, 2usize),
                (5usize, 1usize, 6usize),
            ],
        }
    }
}

/// A polyhedron: its corners, and its faces as triples of indices into the
/// corners. The faces are taken to form a closed surface with all normals to
/// one side; this is not checked.
#[derive(Debug, PartialEq)]
pub struct Polyhedron {
    points: Vec<Vector3>,
    faces: Vec<(usize, usize, usize)>,
}

impl View for Polyhedron {
    type V = RealPolyhedron;

    closed spec fn view(&self) -> RealPolyhedron {
        RealPolyhedron { points: corners_view(self.points@), faces: self.faces@ }
    }
}

impl Clone for Polyhedron {
    fn clone(&self) -> (r: Self)
        ensures
            r@ == self@,
    {
        proof {
            use_type_invariant(self);
        }
        let points: Vec<Vector3> = self.get_points();
        let mut faces: Vec<(usize, usize, usize)> = Vec::new();
        let mut i: usize = 0;
        while i < self.faces.len()
            invariant
                i <= self.faces.len(),
                faces@ == self.faces@.take(i as int),
            decreases self.faces.len() - i,
        {
            faces.push(self.faces[i]);
            assert(faces@ =~= self.faces@.take(i + 1));
            i = i + 1;
        }
        proof {
            assert(self.faces@.take(i as int) =~= self.faces@);
            assert(points@.len() == corners_view(points@).len());
            assert(self.points@.len() == corners_view(self.points@).len());
        }
        Polyhedron { points, faces }
    }
}

impl Polyhedron {
    #[verifier::type_invariant]
    spec fn well_formed(&self) -> bool {
        faces_in_range(self.points@.len(), self.faces@)
    }

    /// Checked construction is not available: no test of the surface being
    /// closed, nor of its normals, exists yet. Every call fails.
    pub fn new(
        points: Vec<Vector3>,
        faces: Vec<(usize, usize, usize)>,
    ) -> (r: Result<Polyhedron, String>)
        ensures
            r is Err,
            r->Err_0@ == "NOIMPL"@,
    {
        Err("NOIMPL".to_owned())
    }

    /// Construction that repairs the faces is not available either. Every call fails.
    pub fn new_autofix(
        points: Vec<Vector3>,
        faces: Vec<(usize, usize, usize)>,
    ) -> (r: Result<Polyhedron, String>)
        ensures
            r is Err,
            r->Err_0@ == "NOIMPL"@,
    {
        Err("NOIMPL".to_owned())
    }

    /// Whether every index of every face is the index of a corner.
    pub fn indices_in_range(points: &Vec<Vector3>, faces: &Vec<(usize, usize, usize)>) -> (r: bool)
        ensures
            r == faces_in_range(points@.len(), faces@),
    {
        let n: usize = points.len();
        let mut i: usize = 0;
        while i < faces.len()
            invariant
                i <= faces.len(),
                n == points@.len(),
                faces_in_range(n as nat, faces@.take(i as int)),
            decreases faces.len() - i,
        {
            let f: (usize, usize, usize) = faces[i];
            if f.0 >= n || f.1 >= n || f.2 >= n {
                return false;
            }
            assert(faces_in_range(n as nat, faces@.take(i + 1))) by {
                assert forall|k: int| 0 <= k < i + 1 implies (#[trigger] faces@.take(i + 1)[k]).0
                    < n && faces@.take(i + 1)[k].1 < n && faces@.take(i + 1)[k].2 < n by {
                    if k < i {
                        assert(faces@.take(i + 1)[k] == faces@.take(i as int)[k]);
                    }
                }
            }
            i = i + 1;
        }
        assert(faces@.take(i as int) =~= faces@);
        true
    }

    /// The polyhedron with the corners and faces given, whose indices are
    /// indices of corners. Nothing else is asked of the faces.
    pub fn new_unchecked(points: Vec<Vector3>, faces: Vec<(usize, usize, usize)>) -> (r: Polyhedron)
        requires
            faces_in_range(points@.len(), faces@),
        ensures
            r@ == (RealPolyhedron { points: corners_view(points@), faces: faces@ }),
    {
        Polyhedron { points, faces }
    }

    /// The unit cube between the origin and `(1, 1, 1)`.
    pub fn cube() -> (r: Polyhedron)
        ensures
            r@ == RealPolyhedron::cube(),
    {
        let mut points: Vec<Vector3> = Vec::new();
        points.push(Vector3::zero());
        points.push(Vector3::i_hat());
        points.push(Vector3::j_hat());
        points.push(Vector3::k_hat());
        points.push(Vector3::new(Scalar::zero(), Scalar::one(), Scalar::one()));
        points.push(Vector3::new(Scalar::one(), Scalar::zero(), Scalar::one()));
        points.push(Vector3::new(Scalar::one(), Scalar::one(), Scalar::zero()));
        points.push(Vector3::new(Scalar::one(), Scalar::one(), Scalar::one()));
        let mut faces: Vec<(usize, usize, usize)> = Vec::new();
        faces.push((0, 2, 1));
        faces.push((0, 1, 3));
        faces.push((0, 3, 2));
        faces.push((6, 1, 2));
        faces.push((5, 3, 1));
        faces.push((4, 2, 3));
        faces.push((4, 5, 7));
        faces.push((4, 7, 6));
        faces.push((5, 6, 7));
        faces.push((4, 3, 5));
        faces.push((4, 6, 2));
        faces.push((5, 1, 6));
        proof {
            assert(corners_view(points@) =~= RealPolyhedron::cube().points);
            assert(faces@ =~= RealPolyhedron::cube().faces);
        }
        Polyhedron::new_unchecked(points, faces)
    }

    /// The corners.
    pub fn get_points(&self) -> (r: Vec<Vector3>)
        ensures
            corners_view(r@) == self@.points,
    {
        let mut out: Vec<Vector3> = Vec::new();
        let mut i: usize = 0;
        while i < self.points.len()
            invariant
                i <= self.points.len(),
                out@.len() == i,
                forall|k: int| 0 <= k < i ==> (#[trigger] out@[k])@ == self.points@[k]@,
            decreases self.points.len() - i,
        {
            out.push(self.points[i].clone());
            i = i + 1;
        }
        assert(corners_view(out@) =~= corners_view(self.points@));
        out
    }

    /// The faces as triangles.
    pub fn get_faces(&self) -> (r: Vec<SimpleTriangle>)
        ensures
            r@.len() == self@.faces.len(),
            forall|i: int| 0 <= i < r@.len() ==> (#[trigger] r@[i])@ == self@.face(i),
    {
        proof {
            use_type_invariant(self);
        }
        let mut out: Vec<SimpleTriangle> = Vec::new();
        let mut i: usize = 0;
        while i < self.faces.len()
            invariant
                i <= self.faces.len(),
                out@.len() == i,
                faces_in_range(self.points@.len(), self.faces@),
                forall|k: int| 0 <= k < i ==> (#[trigger] out@[k])@ == self@.face(k),
            decreases self.faces.len() - i,
        {
            let f: (usize, usize, usize) = self.faces[i];
            assert(self.faces@[i as int].0 < self.points@.len());
            out.push(
                SimpleTriangle::new(
                    self.points[f.0].clone(),
                    self.points[f.1].clone(),
                    self.points[f.2].clone(),
                ),
            );
            i = i + 1;
        }
        out
    }

    /// The faces with their indices counted from one, as mesh files number them.
    pub fn get_obj_faces(&self) -> (r: Vec<(usize, usize, usize)>)
        ensures
            r@.len() == self@.faces.len(),
            forall|i: int|
                0 <= i < r@.len() ==> (#[trigger] r@[i]).0 == self@.faces[i].0 + 1 && r@[i].1
                    == self@.faces[i].1 + 1 && r@[i].2 == self@.faces[i].2 + 1,
    {
        proof {
            use_type_invariant(self);
        }
        let mut out: Vec<(usize, usize, usize)> = Vec::new();
        let mut i: usize = 0;
        while i < self.faces.len()
            invariant
                i <= self.faces.len(),
                out@.len() == i,
                faces_in_range(self.points@.len(), self.faces@),
                forall|k: int|
                    0 <= k < i ==> (#[trigger] out@[k]).0 == self.faces@[k].0 + 1 && out@[k].1
                        == self.faces@[k].1 + 1 && out@[k].2 == self.faces@[k].2 + 1,
            decreases self.faces.len() - i,
        {
            let f: (usize, usize, usize) = self.faces[i];
            let n: usize = self.points.len();
            assert(f == self.faces@[i as int] && f.0 < n && f.1 < n && f.2 < n);
            out.push((f.0 + 1, f.1 + 1, f.2 + 1));
            i = i + 1;
        }
        out
    }

    /// The enclosed volume.
    pub fn get_volume(&self) -> (r: Scalar)
        ensures
            r@ == self@.volume(),
    {
        proof {
            use_type_invariant(self);
        }
        let mut sum: Scalar = Scalar::zero();
        let mut i: usize = 0;
        while i < self.faces.len()
            invariant
                i <= self.faces.len(),
                faces_in_range(self.points@.len(), self.faces@),
                sum@ == self@.volume_upto(i as int),
            decreases self.faces.len() - i,
        {
            let f: (usize, usize, usize) = self.faces[i];
            assert(self.faces@[i as int].0 < self.points@.len());
            let t: Tetrahedron = Tetrahedron::from_points(
                self.points[0].clone(),
                self.points[f.0].clone(),
                self.points[f.1].clone(),
                self.points[f.2].clone(),
            );
            sum = sum.add(&t.volume());
            i = i + 1;
        }
        sum
    }
}

/// The projection on `edge` of `edge` times `k`, plus two vectors that are
/// orthogonal to `edge`, is `k`.
proof fn lemma_projection(edge: RealVec3, k: real, other: RealVec3, last: RealVec3)
    requires
        edge.norm_squared() != 0real,
        edge.dot(other) == 0real,
        edge.dot(last) == 0real,
    ensures
        edge.scale(k).add(other).add(last).dot(edge) / edge.norm_squared() == k,
{
    let sum = edge.scale(k).add(other).add(last);
    lemma_dot_commutes(sum, edge);
    lemma_dot_adds(edge, edge.scale(k).add(other), last);
    lemma_dot_adds(edge, edge.scale(k), other);
    lemma_dot_scales(edge, edge, k);
    lemma_commute(edge.norm_squared(), k);
    lemma_multiply_divide(k, edge.norm_squared());
}

/// What the answer on a point means for a tetrahedron whose three edges are
/// orthogonal to each other, none of length zero: the projections of the point
/// with the coordinates `x`, `y`, `z` in the frame of the edges are `x`, `y`,
/// `z` themselves, and so the answer says whether the point is in the
/// tetrahedron.
pub proof fn lemma_point_in_meaning(tet: RealTetrahedron, x: real, y: real, z: real)
    requires
        tet.right_angled(),
        !tet.degenerate(),
    ensures
        ({
            let p = tet.point_at(x, y, z);
            &&& tet.coordinate(p, tet.a) == x
            &&& tet.coordinate(p, tet.b) == y
            &&& tet.coordinate(p, tet.c) == z
            &&& tet.point_in(p) == (x >= 0real && y >= 0real && z >= 0real && x + y + z
                <= 1real)
        }),
{
    let p = tet.point_at(x, y, z);
    let ax = tet.a.scale(x);
    let by = tet.b.scale(y);
    let cz = tet.c.scale(z);
    let off = p.sub(tet.origin);
    assert(off == ax.add(by).add(cz));
    assert(off == by.add(ax).add(cz));
    assert(off == cz.add(ax).add(by));
    lemma_dot_commutes(tet.b, tet.a);
    lemma_dot_commutes(tet.c, tet.a);
    lemma_dot_commutes(tet.c, tet.b);
    lemma_zero_one(x);
    lemma_zero_one(y);
    lemma_zero_one(z);
    lemma_dot_scales(tet.a, tet.b, y);
    lemma_dot_scales(tet.a, tet.c, z);
    lemma_projection(tet.a, x, by, cz);
    lemma_dot_scales(tet.b, tet.a, x);
    lemma_dot_scales(tet.b, tet.c, z);
    lemma_projection(tet.b, y, ax, cz);
    lemma_dot_scales(tet.c, tet.a, x);
    lemma_dot_scales(tet.c, tet.b, y);
    lemma_projection(tet.c, z, ax, by);
}

} // verus!
