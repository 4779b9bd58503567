//! Three-by-three matrices with exact entries.
use crate::scalar::Scalar;
use crate::utils::real_ring::{
    lemma_distribute2, lemma_distribute3, lemma_product3, lemma_reciprocal, lemma_zero_one,
};
use crate::vectors::{RealVec3, Vector3};
use vstd::prelude::*;

verus! {

/// A real three-by-three matrix, `mij` in row `i` and column `j`: the
/// mathematical model of `Matrix3`.
pub struct RealMat3 {
    pub m00: real,
    pub m01: real,
    pub m02: real,
    pub m10: real,
    pub m11: real,
    pub m12: real,
    pub m20: real,
    pub m21: real,
    pub m22: real,
}

impl RealMat3 {
    pub open spec fn identity() -> RealMat3 {
        RealMat3 {
            m00: 1real,
            m01: 0real,
            m02: 0real,
            m10: 0real,
            m11: 1real,
            m12: 0real,
            m20: 0real,
            m21: 0real,
            m22: 1real,
        }
    }

    pub open spec fn row(self, i: int) -> RealVec3 {
        if i == 0 {
            RealVec3 { x: self.m00, y: self.m01, z: self.m02 }
        } else if i == 1 {
            RealVec3 { x: self.m10, y: self.m11, z: self.m12 }
        } else {
            RealVec3 { x: self.m20, y: self.m21, z: self.m22 }
        }
    }

    pub open spec fn neg(self) -> RealMat3 {
        RealMat3 {
            m00: -self.m00,
            m01: -self.m01,
            m02: -self.m02,
            m10: -self.m10,
            m11: -self.m11,
            m12: -self.m12,
            m20: -self.m20,
            m21: -self.m21,
            m22: -self.m22,
        }
    }

    pub open spec fn scale(self, k: real) -> RealMat3 {
        RealMat3 {
            m00: self.m00 * k,
            m01: self.m01 * k,
            m02: self.m02 * k,
            m10: self.m10 * k,
            m11: self.m11 * k,
            m12: self.m12 * k,
            m20: self.m20 * k,
            m21: self.m21 * k,
            m22: self.m22 * k,
        }
    }

    /// The product of the matrix and a column vector.
    pub open spec fn apply(self, v: RealVec3) -> RealVec3 {
        RealVec3 { x: v.dot(self.row(0)), y: v.dot(self.row(1)), z: v.dot(self.row(2)) }
    }

    /// The determinant, expanded along the first row.
    pub open spec fn determinant(self) -> real {
        self.m00 * (self.m11 * self.m22 - self.m12 * self.m21) - self.m01 * (self.m10 * self.m22
            - self.m12 * self.m20) + self.m02 * (self.m10 * self.m21 - self.m11 * self.m20)
    }

    /// The transpose of the matrix of cofactors.
    pub open spec fn adjugate(self) -> RealMat3 {
        RealMat3 {
            m00: self.m11 * self.m22 - self.m12 * self.m21,
            m01: self.m02 * self.m21 - self.m01 * self.m22,
            m02: self.m01 * self.m12 - self.m02 * self.m11,
            m10: self.m12 * self.m20 - self.m10 * self.m22,
            m11: self.m00 * self.m22 - self.m02 * self.m20,
            m12: self.m02 * self.m10 - self.m00 * self.m12,
            m20: self.m10 * self.m21 - self.m11 * self.m20,
            m21: self.m01 * self.m20 - self.m00 * self.m21,
            m22: self.m00 * self.m11 - self.m01 * self.m10,
        }
    }

    /// The inverse of a matrix whose determinant is not zero.
    pub open spec fn inverse(self) -> RealMat3 {
        self.adjugate().scale(1real / self.determinant())
    }

    /// The product of two matrices.
    pub open spec fn mul(self, rhs: RealMat3) -> RealMat3 {
        RealMat3 {
            m00: self.m00 * rhs.m00 + self.m01 * rhs.m10 + self.m02 * rhs.m20,
            m01: self.m00 * rhs.m01 + self.m01 * rhs.m11 + self.m02 * rhs.m21,
            m02: self.m00 * rhs.m02 + self.m01 * rhs.m12 + self.m02 * rhs.m22,
            m10: self.m10 * rhs.m00 + self.m11 * rhs.m10 + self.m12 * rhs.m20,
            m11: self.m10 * rhs.m01 + self.m11 * rhs.m11 + self.m12 * rhs.m21,
            m12: self.m10 * rhs.m02 + self.m11 * rhs.m12 + self.m12 * rhs.m22,
            m20: self.m20 * rhs.m00 + self.m21 * rhs.m10 + self.m22 * rhs.m20,
            m21: self.m20 * rhs.m01 + self.m21 * rhs.m11 + self.m22 * rhs.m21,
            m22: self.m20 * rhs.m02 + self.m21 * rhs.m12 + self.m22 * rhs.m22,
        }
    }
}

#[derive(Debug, PartialEq)]
pub struct Matrix3 {
    pub data: [[Scalar; 3]; 3],
}

impl View for Matrix3 {
    type V = RealMat3;

    open spec fn view(&self) -> RealMat3 {
        RealMat3 {
            m00: self.data[0][0]@,
            m01: self.data[0][1]@,
            m02: self.data[0][2]@,
            m10: self.data[1][0]@,
            m11: self.data[1][1]@,
            m12: self.data[1][2]@,
            m20: self.data[2][0]@,
            m21: self.data[2][1]@,
            m22: self.data[2][2]@,
        }
    }
}

impl Clone for Matrix3 {
    fn clone(&self) -> (r: Self)
        ensures
            r@ == self@,
    {
        Matrix3::from_flat(self.flat_array())
    }
}

impl Matrix3 {
    pub fn new(data: [[Scalar; 3]; 3]) -> (r: Matrix3)
        ensures
            r.data == data,
    {
        Matrix3 { data }
    }

    pub fn identity() -> (r: Matrix3)
        ensures
            r@ == RealMat3::identity(),
    {
        Matrix3::new(
            [
                [Scalar::one(), Scalar::zero(), Scalar::zero()],
                [Scalar::zero(), Scalar::one(), Scalar::zero()],
                [Scalar::zero(), Scalar::zero(), Scalar::one()],
            ],
        )
    }

    /// The matrix whose rows are the three thirds of `data`.
    pub fn from_flat(data: [Scalar; 9]) -> (r: Matrix3)
        ensures
            r@ == (RealMat3 {
                m00: data[0]@,
                m01: data[1]@,
                m02: data[2]@,
                m10: data[3]@,
                m11: data[4]@,
                m12: data[5]@,
                m20: data[6]@,
                m21: data[7]@,
                m22: data[8]@,
            }),
    {
        Matrix3::new(
            [
                [data[0].clone(), data[1].clone(), data[2].clone()],
                [data[3].clone(), data[4].clone(), data[5].clone()],
                [data[6].clone(), data[7].clone(), data[8].clone()],
            ],
        )
    }

    /// The rows of the matrix, first to last.
    pub fn row_vectors(&self) -> (r: Vec<Vector3>)
        ensures
            r@.len() == 3,
            forall|i: int| 0 <= i < 3 ==> (#[trigger] r@[i])@ == self@.row(i),
    {
        let mut rows: Vec<Vector3> = Vec::new();
        rows.push(
            Vector3::new(
                self.data[0][0].clone(),
                self.data[0][1].clone(),
                self.data[0][2].clone(),
            ),
        );
        rows.push(
            Vector3::new(
                self.data[1][0].clone(),
                self.data[1][1].clone(),
                self.data[1][2].clone(),
            ),
        );
        rows.push(
            Vector3::new(
                self.data[2][0].clone(),
                self.data[2][1].clone(),
                self.data[2][2].clone(),
            ),
        );
        rows
    }

    /// The entries of the matrix, row by row.
    pub fn flat_array(&self) -> (r: [Scalar; 9])
        ensures
            r[0]@ == self@.m00,
            r[1]@ == self@.m01,
            r[2]@ == self@.m02,
            r[3]@ == self@.m10,
            r[4]@ == self@.m11,
            r[5]@ == self@.m12,
            r[6]@ == self@.m20,
            r[7]@ == self@.m21,
            r[8]@ == self@.m22,
    {
        [
            self.data[0][0].clone(),
            self.data[0][1].clone(),
            self.data[0][2].clone(),
            self.data[1][0].clone(),
            self.data[1][1].clone(),
            self.data[1][2].clone(),
            self.data[2][0].clone(),
            self.data[2][1].clone(),
            self.data[2][2].clone(),
        ]
    }

    pub fn neg(&self) -> (r: Matrix3)
        ensures
            r@ == self@.neg(),
    {
        Matrix3::new(
            [
                [self.data[0][0].neg(), self.data[0][1].neg(), self.data[0][2].neg()],
                [self.data[1][0].neg(), self.data[1][1].neg(), self.data[1][2].neg()],
                [self.data[2][0].neg(), self.data[2][1].neg(), self.data[2][2].neg()],
            ],
        )
    }

    /// The matrix with every entry multiplied by `k`.
    pub fn scale(&self, k: &Scalar) -> (r: Matrix3)
        ensures
            r@ == self@.scale(k@),
    {
        Matrix3::new(
            [
                [self.data[0][0].mul(k), self.data[0][1].mul(k), self.data[0][2].mul(k)],
                [self.data[1][0].mul(k), self.data[1][1].mul(k), self.data[1][2].mul(k)],
                [self.data[2][0].mul(k), self.data[2][1].mul(k), self.data[2][2].mul(k)],
            ],
        )
    }

    /// The product of the matrix and a column vector.
    pub fn apply(&self, rhs: &Vector3) -> (r: Vector3)
        ensures
            r@ == self@.apply(rhs@),
    {
        let rows: Vec<Vector3> = self.row_vectors();
        Vector3::new(rhs.dot(&rows[0]), rhs.dot(&rows[1]), rhs.dot(&rows[2]))
    }

    pub fn determinant(&self) -> (r: Scalar)
        ensures
            r@ == self@.determinant(),
    {
        let d: &[[Scalar; 3]; 3] = &self.data;
        let first: Scalar = d[0][0].mul(&d[1][1].mul(&d[2][2]).sub(&d[1][2].mul(&d[2][1])));
        let second: Scalar = d[0][1].mul(&d[1][0].mul(&d[2][2]).sub(&d[1][2].mul(&d[2][0])));
        let third: Scalar = d[0][2].mul(&d[1][0].mul(&d[2][1]).sub(&d[1][1].mul(&d[2][0])));
        first.sub(&second).add(&third)
    }

    /// The inverse, or nothing where the determinant is zero.
    pub fn inverse(&self) -> (r: Option<Matrix3>)
        ensures
            r is None <==> self@.determinant() == 0real,
            r is Some ==> r->Some_0@ == self@.inverse(),
    {
        let mat: [Scalar; 9] = self.flat_array();
        let det: Scalar = self.determinant();
        if det.is_zero() {
            None
        } else {
            let adj: [Scalar; 9] = [
                mat[4].mul(&mat[8]).sub(&mat[5].mul(&mat[7])),
                mat[2].mul(&mat[7]).sub(&mat[1].mul(&mat[8])),
                mat[1].mul(&mat[5]).sub(&mat[2].mul(&mat[4])),
                mat[5].mul(&mat[6]).sub(&mat[3].mul(&mat[8])),
                mat[0].mul(&mat[8]).sub(&mat[2].mul(&mat[6])),
                mat[2].mul(&mat[3]).sub(&mat[0].mul(&mat[5])),
                mat[3].mul(&mat[7]).sub(&mat[4].mul(&mat[6])),
                mat[1].mul(&mat[6]).sub(&mat[0].mul(&mat[7])),
                mat[0].mul(&mat[4]).sub(&mat[1].mul(&mat[3])),
            ];
            let factor: Scalar = Scalar::one().div(&det);
            Some(Matrix3::from_flat(adj).scale(&factor))
        }
    }
}

proof fn lemma_apply_product_x(a: RealMat3, b: RealMat3, v: RealVec3)
    ensures
        a.apply(b.apply(v)).x == a.mul(b).apply(v).x,
{
    lemma_distribute3(a.m00, v.x * b.m00, v.y * b.m01, v.z * b.m02);
    lemma_distribute3(a.m01, v.x * b.m10, v.y * b.m11, v.z * b.m12);
    lemma_distribute3(a.m02, v.x * b.m20, v.y * b.m21, v.z * b.m22);
    lemma_distribute3(v.x, a.m00 * b.m00, a.m01 * b.m10, a.m02 * b.m20);
    lemma_distribute3(v.y, a.m00 * b.m01, a.m01 * b.m11, a.m02 * b.m21);
    lemma_distribute3(v.z, a.m00 * b.m02, a.m01 * b.m12, a.m02 * b.m22);
    lemma_product3(v.x, b.m00, a.m00);
    lemma_product3(v.y, b.m01, a.m00);
    lemma_product3(v.z, b.m02, a.m00);
    lemma_product3(v.x, b.m10, a.m01);
    lemma_product3(v.y, b.m11, a.m01);
    lemma_product3(v.z, b.m12, a.m01);
    lemma_product3(v.x, b.m20, a.m02);
    lemma_product3(v.y, b.m21, a.m02);
    lemma_product3(v.z, b.m22, a.m02);
}

proof fn lemma_apply_product_y(a: RealMat3, b: RealMat3, v: RealVec3)
    ensures
        a.apply(b.apply(v)).y == a.mul(b).apply(v).y,
{
    lemma_distribute3(a.m10, v.x * b.m00, v.y * b.m01, v.z * b.m02);
    lemma_distribute3(a.m11, v.x * b.m10, v.y * b.m11, v.z * b.m12);
    lemma_distribute3(a.m12, v.x * b.m20, v.y * b.m21, v.z * b.m22);
    lemma_distribute3(v.x, a.m10 * b.m00, a.m11 * b.m10, a.m12 * b.m20);
    lemma_distribute3(v.y, a.m10 * b.m01, a.m11 * b.m11, a.m12 * b.m21);
    lemma_distribute3(v.z, a.m10 * b.m02, a.m11 * b.m12, a.m12 * b.m22);
    lemma_product3(v.x, b.m00, a.m10);
    lemma_product3(v.y, b.m01, a.m10);
    lemma_product3(v.z, b.m02, a.m10);
    lemma_product3(v.x, b.m10, a.m11);
    lemma_product3(v.y, b.m11, a.m11);
    lemma_product3(v.z, b.m12, a.m11);
    lemma_product3(v.x, b.m20, a.m12);
    lemma_product3(v.y, b.m21, a.m12);
    lemma_product3(v.z, b.m22, a.m12);
}

proof fn lemma_apply_product_z(a: RealMat3, b: RealMat3, v: RealVec3)
    ensures
        a.apply(b.apply(v)).z == a.mul(b).apply(v).z,
{
    lemma_distribute3(a.m20, v.x * b.m00, v.y * b.m01, v.z * b.m02);
    lemma_distribute3(a.m21, v.x * b.m10, v.y * b.m11, v.z * b.m12);
    lemma_distribute3(a.m22, v.x * b.m20, v.y * b.m21, v.z * b.m22);
    lemma_distribute3(v.x, a.m20 * b.m00, a.m21 * b.m10, a.m22 * b.m20);
    lemma_distribute3(v.y, a.m20 * b.m01, a.m21 * b.m11, a.m22 * b.m21);
    lemma_distribute3(v.z, a.m20 * b.m02, a.m21 * b.m12, a.m22 * b.m22);
    lemma_product3(v.x, b.m00, a.m20);
    lemma_product3(v.y, b.m01, a.m20);
    lemma_product3(v.z, b.m02, a.m20);
    lemma_product3(v.x, b.m10, a.m21);
    lemma_product3(v.y, b.m11, a.m21);
    lemma_product3(v.z, b.m12, a.m21);
    lemma_product3(v.x, b.m20, a.m22);
    lemma_product3(v.y, b.m21, a.m22);
    lemma_product3(v.z, b.m22, a.m22);
}

/// To apply one matrix after another is to apply their product.
pub proof fn lemma_apply_product(a: RealMat3, b: RealMat3, v: RealVec3)
    ensures
        a.apply(b.apply(v)) == a.mul(b).apply(v),
{
    lemma_apply_product_x(a, b, v);
    lemma_apply_product_y(a, b, v);
    lemma_apply_product_z(a, b, v);
}

/// A factor of a factor of a product of matrices is a factor of the product.
pub proof fn lemma_product_scales(a: RealMat3, b: RealMat3, k: real)
    ensures
        a.scale(k).mul(b) == a.mul(b).scale(k),
        a.mul(b.scale(k)) == a.mul(b).scale(k),
{
    lemma_distribute3(k, a.m00 * b.m00, a.m01 * b.m10, a.m02 * b.m20);
    lemma_product3(a.m00, b.m00, k);
    lemma_product3(a.m01, b.m10, k);
    lemma_product3(a.m02, b.m20, k);
    lemma_distribute3(k, a.m00 * b.m01, a.m01 * b.m11, a.m02 * b.m21);
    lemma_product3(a.m00, b.m01, k);
    lemma_product3(a.m01, b.m11, k);
    lemma_product3(a.m02, b.m21, k);
    lemma_distribute3(k, a.m00 * b.m02, a.m01 * b.m12, a.m02 * b.m22);
    lemma_product3(a.m00, b.m02, k);
    lemma_product3(a.m01, b.m12, k);
    lemma_product3(a.m02, b.m22, k);
    lemma_distribute3(k, a.m10 * b.m00, a.m11 * b.m10, a.m12 * b.m20);
    lemma_product3(a.m10, b.m00, k);
    lemma_product3(a.m11, b.m10, k);
    lemma_product3(a.m12, b.m20, k);
    lemma_distribute3(k, a.m10 * b.m01, a.m11 * b.m11, a.m12 * b.m21);
    lemma_product3(a.m10, b.m01, k);
    lemma_product3(a.m11, b.m11, k);
    lemma_product3(a.m12, b.m21, k);
    lemma_distribute3(k, a.m10 * b.m02, a.m11 * b.m12, a.m12 * b.m22);
    lemma_product3(a.m10, b.m02, k);
    lemma_product3(a.m11, b.m12, k);
    lemma_product3(a.m12, b.m22, k);
    lemma_distribute3(k, a.m20 * b.m00, a.m21 * b.m10, a.m22 * b.m20);
    lemma_product3(a.m20, b.m00, k);
    lemma_product3(a.m21, b.m10, k);
    lemma_product3(a.m22, b.m20, k);
    lemma_distribute3(k, a.m20 * b.m01, a.m21 * b.m11, a.m22 * b.m21);
    lemma_product3(a.m20, b.m01, k);
    lemma_product3(a.m21, b.m11, k);
    lemma_product3(a.m22, b.m21, k);
    lemma_distribute3(k, a.m20 * b.m02, a.m21 * b.m12, a.m22 * b.m22);
    lemma_product3(a.m20, b.m02, k);
    lemma_product3(a.m21, b.m12, k);
    lemma_product3(a.m22, b.m22, k);
}

proof fn lemma_adjugate_product_row0(m: RealMat3)
    ensures
        m.adjugate().mul(m).m00 == m.determinant(),
        m.adjugate().mul(m).m01 == 0real,
        m.adjugate().mul(m).m02 == 0real,
{
    lemma_distribute2(m.m00, m.m11 * m.m22, m.m12 * m.m21);
    lemma_distribute2(m.m01, m.m10 * m.m22, m.m12 * m.m20);
    lemma_distribute2(m.m02, m.m10 * m.m21, m.m11 * m.m20);
    lemma_product3(m.m00, m.m11, m.m22);
    lemma_product3(m.m00, m.m12, m.m21);
    lemma_product3(m.m01, m.m10, m.m22);
    lemma_product3(m.m01, m.m12, m.m20);
    lemma_product3(m.m02, m.m10, m.m21);
    lemma_product3(m.m02, m.m11, m.m20);
    lemma_distribute2(m.m00, m.m11 * m.m22, m.m12 * m.m21);
    lemma_distribute2(m.m10, m.m02 * m.m21, m.m01 * m.m22);
    lemma_distribute2(m.m20, m.m01 * m.m12, m.m02 * m.m11);
    lemma_distribute2(m.m01, m.m11 * m.m22, m.m12 * m.m21);
    lemma_product3(m.m01, m.m11, m.m22);
    lemma_product3(m.m01, m.m12, m.m21);
    lemma_distribute2(m.m11, m.m02 * m.m21, m.m01 * m.m22);
    lemma_product3(m.m02, m.m11, m.m21);
    lemma_distribute2(m.m21, m.m01 * m.m12, m.m02 * m.m11);
    lemma_distribute2(m.m02, m.m11 * m.m22, m.m12 * m.m21);
    lemma_product3(m.m02, m.m11, m.m22);
    lemma_product3(m.m02, m.m12, m.m21);
    lemma_distribute2(m.m12, m.m02 * m.m21, m.m01 * m.m22);
    lemma_product3(m.m01, m.m12, m.m22);
    lemma_distribute2(m.m22, m.m01 * m.m12, m.m02 * m.m11);
}

proof fn lemma_adjugate_product_row1(m: RealMat3)
    ensures
        m.adjugate().mul(m).m10 == 0real,
        m.adjugate().mul(m).m11 == m.determinant(),
        m.adjugate().mul(m).m12 == 0real,
{
    lemma_distribute2(m.m00, m.m11 * m.m22, m.m12 * m.m21);
    lemma_distribute2(m.m01, m.m10 * m.m22, m.m12 * m.m20);
    lemma_distribute2(m.m02, m.m10 * m.m21, m.m11 * m.m20);
    lemma_product3(m.m00, m.m11, m.m22);
    lemma_product3(m.m00, m.m12, m.m21);
    lemma_product3(m.m01, m.m10, m.m22);
    lemma_product3(m.m01, m.m12, m.m20);
    lemma_product3(m.m02, m.m10, m.m21);
    lemma_product3(m.m02, m.m11, m.m20);
    lemma_distribute2(m.m00, m.m12 * m.m20, m.m10 * m.m22);
    lemma_product3(m.m00, m.m12, m.m20);
    lemma_product3(m.m00, m.m10, m.m22);
    lemma_distribute2(m.m10, m.m00 * m.m22, m.m02 * m.m20);
    lemma_product3(m.m02, m.m10, m.m20);
    lemma_distribute2(m.m20, m.m02 * m.m10, m.m00 * m.m12);
    lemma_distribute2(m.m01, m.m12 * m.m20, m.m10 * m.m22);
    lemma_distribute2(m.m11, m.m00 * m.m22, m.m02 * m.m20);
    lemma_distribute2(m.m21, m.m02 * m.m10, m.m00 * m.m12);
    lemma_distribute2(m.m02, m.m12 * m.m20, m.m10 * m.m22);
    lemma_product3(m.m02, m.m12, m.m20);
    lemma_product3(m.m02, m.m10, m.m22);
    lemma_distribute2(m.m12, m.m00 * m.m22, m.m02 * m.m20);
    lemma_product3(m.m00, m.m12, m.m22);
    lemma_distribute2(m.m22, m.m02 * m.m10, m.m00 * m.m12);
}

proof fn lemma_adjugate_product_row2(m: RealMat3)
    ensures
        m.adjugate().mul(m).m20 == 0real,
        m.adjugate().mul(m).m21 == 0real,
        m.adjugate().mul(m).m22 == m.determinant(),
{
    lemma_distribute2(m.m00, m.m11 * m.m22, m.m12 * m.m21);
    lemma_distribute2(m.m01, m.m10 * m.m22, m.m12 * m.m20);
    lemma_distribute2(m.m02, m.m10 * m.m21, m.m11 * m.m20);
    lemma_product3(m.m00, m.m11, m.m22);
    lemma_product3(m.m00, m.m12, m.m21);
    lemma_product3(m.m01, m.m10, m.m22);
    lemma_product3(m.m01, m.m12, m.m20);
    lemma_product3(m.m02, m.m10, m.m21);
    lemma_product3(m.m02, m.m11, m.m20);
    lemma_distribute2(m.m00, m.m10 * m.m21, m.m11 * m.m20);
    lemma_product3(m.m00, m.m10, m.m21);
    lemma_product3(m.m00, m.m11, m.m20);
    lemma_distribute2(m.m10, m.m01 * m.m20, m.m00 * m.m21);
    lemma_product3(m.m01, m.m10, m.m20);
    lemma_distribute2(m.m20, m.m00 * m.m11, m.m01 * m.m10);
    lemma_distribute2(m.m01, m.m10 * m.m21, m.m11 * m.m20);
    lemma_product3(m.m01, m.m10, m.m21);
    lemma_product3(m.m01, m.m11, m.m20);
    lemma_distribute2(m.m11, m.m01 * m.m20, m.m00 * m.m21);
    lemma_product3(m.m00, m.m11, m.m21);
    lemma_distribute2(m.m21, m.m00 * m.m11, m.m01 * m.m10);
    lemma_distribute2(m.m02, m.m10 * m.m21, m.m11 * m.m20);
    lemma_distribute2(m.m12, m.m01 * m.m20, m.m00 * m.m21);
    lemma_distribute2(m.m22, m.m00 * m.m11, m.m01 * m.m10);
}

proof fn lemma_product_adjugate_row0(m: RealMat3)
    ensures
        m.mul(m.adjugate()).m00 == m.determinant(),
        m.mul(m.adjugate()).m01 == 0real,
        m.mul(m.adjugate()).m02 == 0real,
{
    lemma_distribute2(m.m00, m.m11 * m.m22, m.m12 * m.m21);
    lemma_distribute2(m.m01, m.m10 * m.m22, m.m12 * m.m20);
    lemma_distribute2(m.m02, m.m10 * m.m21, m.m11 * m.m20);
    lemma_product3(m.m00, m.m11, m.m22);
    lemma_product3(m.m00, m.m12, m.m21);
    lemma_product3(m.m01, m.m10, m.m22);
    lemma_product3(m.m01, m.m12, m.m20);
    lemma_product3(m.m02, m.m10, m.m21);
    lemma_product3(m.m02, m.m11, m.m20);
    lemma_distribute2(m.m00, m.m11 * m.m22, m.m12 * m.m21);
    lemma_distribute2(m.m01, m.m12 * m.m20, m.m10 * m.m22);
    lemma_distribute2(m.m02, m.m10 * m.m21, m.m11 * m.m20);
    lemma_distribute2(m.m00, m.m02 * m.m21, m.m01 * m.m22);
    lemma_product3(m.m00, m.m02, m.m21);
    lemma_product3(m.m00, m.m01, m.m22);
    lemma_distribute2(m.m01, m.m00 * m.m22, m.m02 * m.m20);
    lemma_product3(m.m01, m.m02, m.m20);
    lemma_distribute2(m.m02, m.m01 * m.m20, m.m00 * m.m21);
    lemma_distribute2(m.m00, m.m01 * m.m12, m.m02 * m.m11);
    lemma_product3(m.m00, m.m01, m.m12);
    lemma_product3(m.m00, m.m02, m.m11);
    lemma_distribute2(m.m01, m.m02 * m.m10, m.m00 * m.m12);
    lemma_product3(m.m01, m.m02, m.m10);
    lemma_distribute2(m.m02, m.m00 * m.m11, m.m01 * m.m10);
}

proof fn lemma_product_adjugate_row1(m: RealMat3)
    ensures
        m.mul(m.adjugate()).m10 == 0real,
        m.mul(m.adjugate()).m11 == m.determinant(),
        m.mul(m.adjugate()).m12 == 0real,
{
    lemma_distribute2(m.m00, m.m11 * m.m22, m.m12 * m.m21);
    lemma_distribute2(m.m01, m.m10 * m.m22, m.m12 * m.m20);
    lemma_distribute2(m.m02, m.m10 * m.m21, m.m11 * m.m20);
    lemma_product3(m.m00, m.m11, m.m22);
    lemma_product3(m.m00, m.m12, m.m21);
    lemma_product3(m.m01, m.m10, m.m22);
    lemma_product3(m.m01, m.m12, m.m20);
    lemma_product3(m.m02, m.m10, m.m21);
    lemma_product3(m.m02, m.m11, m.m20);
    lemma_distribute2(m.m10, m.m11 * m.m22, m.m12 * m.m21);
    lemma_product3(m.m10, m.m11, m.m22);
    lemma_product3(m.m10, m.m12, m.m21);
    lemma_distribute2(m.m11, m.m12 * m.m20, m.m10 * m.m22);
    lemma_product3(m.m11, m.m12, m.m20);
    lemma_distribute2(m.m12, m.m10 * m.m21, m.m11 * m.m20);
    lemma_distribute2(m.m10, m.m02 * m.m21, m.m01 * m.m22);
    lemma_distribute2(m.m11, m.m00 * m.m22, m.m02 * m.m20);
    lemma_distribute2(m.m12, m.m01 * m.m20, m.m00 * m.m21);
    lemma_distribute2(m.m10, m.m01 * m.m12, m.m02 * m.m11);
    lemma_product3(m.m01, m.m10, m.m12);
    lemma_product3(m.m02, m.m10, m.m11);
    lemma_distribute2(m.m11, m.m02 * m.m10, m.m00 * m.m12);
    lemma_product3(m.m00, m.m11, m.m12);
    lemma_distribute2(m.m12, m.m00 * m.m11, m.m01 * m.m10);
}

proof fn lemma_product_adjugate_row2(m: RealMat3)
    ensures
        m.mul(m.adjugate()).m20 == 0real,
        m.mul(m.adjugate()).m21 == 0real,
        m.mul(m.adjugate()).m22 == m.determinant(),
{
    lemma_distribute2(m.m00, m.m11 * m.m22, m.m12 * m.m21);
    lemma_distribute2(m.m01, m.m10 * m.m22, m.m12 * m.m20);
    lemma_distribute2(m.m02, m.m10 * m.m21, m.m11 * m.m20);
    lemma_product3(m.m00, m.m11, m.m22);
    lemma_product3(m.m00, m.m12, m.m21);
    lemma_product3(m.m01, m.m10, m.m22);
    lemma_product3(m.m01, m.m12, m.m20);
    lemma_product3(m.m02, m.m10, m.m21);
    lemma_product3(m.m02, m.m11, m.m20);
    lemma_distribute2(m.m20, m.m11 * m.m22, m.m12 * m.m21);
    lemma_product3(m.m11, m.m20, m.m22);
    lemma_product3(m.m12, m.m20, m.m21);
    lemma_distribute2(m.m21, m.m12 * m.m20, m.m10 * m.m22);
    lemma_product3(m.m10, m.m21, m.m22);
    lemma_distribute2(m.m22, m.m10 * m.m21, m.m11 * m.m20);
    lemma_distribute2(m.m20, m.m02 * m.m21, m.m01 * m.m22);
    lemma_product3(m.m02, m.m20, m.m21);
    lemma_product3(m.m01, m.m20, m.m22);
    lemma_distribute2(m.m21, m.m00 * m.m22, m.m02 * m.m20);
    lemma_product3(m.m00, m.m21, m.m22);
    lemma_distribute2(m.m22, m.m01 * m.m20, m.m00 * m.m21);
    lemma_distribute2(m.m20, m.m01 * m.m12, m.m02 * m.m11);
    lemma_distribute2(m.m21, m.m02 * m.m10, m.m00 * m.m12);
    lemma_distribute2(m.m22, m.m00 * m.m11, m.m01 * m.m10);
}


/// A matrix times its adjugate, in either order, is the determinant times the
/// identity.
pub proof fn lemma_adjugate_product(m: RealMat3)
    ensures
        m.adjugate().mul(m) == RealMat3::identity().scale(m.determinant()),
        m.mul(m.adjugate()) == RealMat3::identity().scale(m.determinant()),
{
    lemma_adjugate_product_row0(m);
    lemma_adjugate_product_row1(m);
    lemma_adjugate_product_row2(m);
    lemma_product_adjugate_row0(m);
    lemma_product_adjugate_row1(m);
    lemma_product_adjugate_row2(m);
    lemma_zero_one(m.determinant());
}

/// The identity matrix maps every vector to itself.
pub proof fn lemma_apply_identity(v: RealVec3)
    ensures
        RealMat3::identity().apply(v) == v,
{
    lemma_zero_one(v.x);
    lemma_zero_one(v.y);
    lemma_zero_one(v.z);
}

/// A matrix whose determinant is not zero, times its inverse, in either
/// order, is the identity.
pub proof fn lemma_inverse_product(m: RealMat3)
    requires
        m.determinant() != 0real,
    ensures
        m.inverse().mul(m) == RealMat3::identity(),
        m.mul(m.inverse()) == RealMat3::identity(),
{
    let k = 1real / m.determinant();
    lemma_product_scales(m.adjugate(), m, k);
    lemma_product_scales(m, m.adjugate(), k);
    lemma_adjugate_product(m);
    lemma_reciprocal(m.determinant());
    lemma_zero_one(m.determinant());
    lemma_zero_one(k);
}

/// The inverse of a matrix undoes the matrix, and the matrix undoes its
/// inverse: `x = m^-1 b` solves `m x = b`.
pub proof fn lemma_inverse_solves(m: RealMat3, v: RealVec3)
    requires
        m.determinant() != 0real,
    ensures
        m.inverse().apply(m.apply(v)) == v,
        m.apply(m.inverse().apply(v)) == v,
{
    lemma_apply_product(m.inverse(), m, v);
    lemma_apply_product(m, m.inverse(), v);
    lemma_inverse_product(m);
    lemma_apply_identity(v);
}

} // verus!
