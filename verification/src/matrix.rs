//! The linear and affine transform types.
//!
//! A [`Matrix3x3`] stores nine numerators over one shared positive
//! denominator, so its entries are the rationals `n_ij / den`.  An
//! [`HMatrix`] pairs a linear part `M` with a translation `T` and represents
//! the affine map `p |-> M*p + T` on points and `d |-> M*d` on free vectors.
//! The inverse is the closed-form cofactor (Cramer) inverse, kept exact: the
//! adjugate numerators go over the determinant numerator as the new shared
//! denominator, so no division ever happens.

use vstd::prelude::*;

use crate::rat::{lemma_pos_prod, QRat};
use crate::vector::{
    dot3_fits, fits64, pfits, qv_add, qv_add_fits, qv_eq, qv_neg, qv_wf, qv_zero, Direction,
    Position, QRay, QV3, Ray,
};

verus! {

/// Mathematical image of a 3x3 matrix: nine numerators over one positive
/// denominator, all unbounded.
pub ghost struct QM3 {
    pub e00: int,
    pub e01: int,
    pub e02: int,
    pub e10: int,
    pub e11: int,
    pub e12: int,
    pub e20: int,
    pub e21: int,
    pub e22: int,
    pub d: int,
}

/// Mathematical image of an affine transform: linear part and translation.
pub ghost struct QHM {
    pub m: QM3,
    pub t: QV3,
}

/// Well-formedness of a matrix image: positive denominator.
pub open spec fn qm_wf(m: QM3) -> bool {
    m.d > 0
}

/// Well-formedness of an affine transform image.
pub open spec fn qh_wf(h: QHM) -> bool {
    qm_wf(h.m) && qv_wf(h.t)
}

/// Entrywise value equality of two matrices, by cross multiplication.
pub open spec fn qm_eq(a: QM3, b: QM3) -> bool {
    &&& a.e00 * b.d == b.e00 * a.d
    &&& a.e01 * b.d == b.e01 * a.d
    &&& a.e02 * b.d == b.e02 * a.d
    &&& a.e10 * b.d == b.e10 * a.d
    &&& a.e11 * b.d == b.e11 * a.d
    &&& a.e12 * b.d == b.e12 * a.d
    &&& a.e20 * b.d == b.e20 * a.d
    &&& a.e21 * b.d == b.e21 * a.d
    &&& a.e22 * b.d == b.e22 * a.d
}

/// Value equality of two affine transforms.
pub open spec fn qh_eq(a: QHM, b: QHM) -> bool {
    qm_eq(a.m, b.m) && qv_eq(a.t, b.t)
}

/// The identity matrix.
pub open spec fn qm_id() -> QM3 {
    QM3 { e00: 1, e01: 0, e02: 0, e10: 0, e11: 1, e12: 0, e20: 0, e21: 0, e22: 1, d: 1 }
}

/// The identity affine transform.
pub open spec fn qh_id() -> QHM {
    QHM { m: qm_id(), t: qv_zero() }
}

/// Matrix product: `C[i][j] = sum_k A[i][k] * B[k][j]` on numerators, with
/// the denominators multiplying.
pub open spec fn qm_mul(a: QM3, b: QM3) -> QM3 {
    QM3 {
        e00: a.e00 * b.e00 + a.e01 * b.e10 + a.e02 * b.e20,
        e01: a.e00 * b.e01 + a.e01 * b.e11 + a.e02 * b.e21,
        e02: a.e00 * b.e02 + a.e01 * b.e12 + a.e02 * b.e22,
        e10: a.e10 * b.e00 + a.e11 * b.e10 + a.e12 * b.e20,
        e11: a.e10 * b.e01 + a.e11 * b.e11 + a.e12 * b.e21,
        e12: a.e10 * b.e02 + a.e11 * b.e12 + a.e12 * b.e22,
        e20: a.e20 * b.e00 + a.e21 * b.e10 + a.e22 * b.e20,
        e21: a.e20 * b.e01 + a.e21 * b.e11 + a.e22 * b.e21,
        e22: a.e20 * b.e02 + a.e21 * b.e12 + a.e22 * b.e22,
        d: a.d * b.d,
    }
}

/// Matrix-vector product, row times column.
pub open spec fn qm_mul_v(m: QM3, v: QV3) -> QV3 {
    QV3 {
        x: m.e00 * v.x + m.e01 * v.y + m.e02 * v.z,
        y: m.e10 * v.x + m.e11 * v.y + m.e12 * v.z,
        z: m.e20 * v.x + m.e21 * v.y + m.e22 * v.z,
        d: m.d * v.d,
    }
}

/// Adjugate numerator at row 0, column 0 (cofactor of `e00`).
pub open spec fn qm_adj00(m: QM3) -> int {
    m.e11 * m.e22 - m.e12 * m.e21
}

/// Adjugate numerator at row 0, column 1.
pub open spec fn qm_adj01(m: QM3) -> int {
    m.e02 * m.e21 - m.e01 * m.e22
}

/// Adjugate numerator at row 0, column 2.
pub open spec fn qm_adj02(m: QM3) -> int {
    m.e01 * m.e12 - m.e02 * m.e11
}

/// Adjugate numerator at row 1, column 0.
pub open spec fn qm_adj10(m: QM3) -> int {
    m.e12 * m.e20 - m.e10 * m.e22
}

/// Adjugate numerator at row 1, column 1.
pub open spec fn qm_adj11(m: QM3) -> int {
    m.e00 * m.e22 - m.e02 * m.e20
}

/// Adjugate numerator at row 1, column 2.
pub open spec fn qm_adj12(m: QM3) -> int {
    m.e02 * m.e10 - m.e00 * m.e12
}

/// Adjugate numerator at row 2, column 0.
pub open spec fn qm_adj20(m: QM3) -> int {
    m.e10 * m.e21 - m.e11 * m.e20
}

/// Adjugate numerator at row 2, column 1.
pub open spec fn qm_adj21(m: QM3) -> int {
    m.e01 * m.e20 - m.e00 * m.e21
}

/// Adjugate numerator at row 2, column 2.
pub open spec fn qm_adj22(m: QM3) -> int {
    m.e00 * m.e11 - m.e01 * m.e10
}

/// Determinant numerator: the true determinant of the rational matrix is
/// `qm_det(m) / m.d^3`.  The matrix has an inverse exactly when this is not
/// zero.
pub open spec fn qm_det(m: QM3) -> int {
    m.e00 * qm_adj00(m) + m.e01 * qm_adj10(m) + m.e02 * qm_adj20(m)
}

/// Cofactor (Cramer) inverse: adjugate numerators scaled by the old
/// denominator, over the determinant numerator, with signs normalised so the
/// new denominator is positive.
pub open spec fn qm_inv(m: QM3) -> QM3 {
    if qm_det(m) >= 0 {
        QM3 {
            e00: m.d * qm_adj00(m),
            e01: m.d * qm_adj01(m),
            e02: m.d * qm_adj02(m),
            e10: m.d * qm_adj10(m),
            e11: m.d * qm_adj11(m),
            e12: m.d * qm_adj12(m),
            e20: m.d * qm_adj20(m),
            e21: m.d * qm_adj21(m),
            e22: m.d * qm_adj22(m),
            d: qm_det(m),
        }
    } else {
        QM3 {
            e00: -(m.d * qm_adj00(m)),
            e01: -(m.d * qm_adj01(m)),
            e02: -(m.d * qm_adj02(m)),
            e10: -(m.d * qm_adj10(m)),
            e11: -(m.d * qm_adj11(m)),
            e12: -(m.d * qm_adj12(m)),
            e20: -(m.d * qm_adj20(m)),
            e21: -(m.d * qm_adj21(m)),
            e22: -(m.d * qm_adj22(m)),
            d: -qm_det(m),
        }
    }
}

/// Composition of affine transforms: applying `y` first and `x` second is
/// the transform with linear part `x.m * y.m` and translation
/// `x.m * y.t + x.t`.
pub open spec fn qh_compose(x: QHM, y: QHM) -> QHM {
    QHM { m: qm_mul(x.m, y.m), t: qv_add(qm_mul_v(x.m, y.t), x.t) }
}

/// Inverse affine transform: inverse linear part, translation
/// `-(M^-1 * T)`.
pub open spec fn qh_inv(h: QHM) -> QHM {
    QHM { m: qm_inv(h.m), t: qv_neg(qm_mul_v(qm_inv(h.m), h.t)) }
}

/// A point mapped through an affine transform: `M*p + T`.
pub open spec fn qh_apply_p(h: QHM, p: QV3) -> QV3 {
    qv_add(qm_mul_v(h.m, p), h.t)
}

/// A free vector mapped through an affine transform: `M*d`, translation
/// ignored.
pub open spec fn qh_apply_d(h: QHM, v: QV3) -> QV3 {
    qm_mul_v(h.m, v)
}

/// A ray mapped through an affine transform: origin as a point, direction as
/// a free vector.
pub open spec fn qh_apply_ray(h: QHM, r: QRay) -> QRay {
    QRay { r0: qh_apply_p(h, r.r0), v: qh_apply_d(h, r.v) }
}

/// Machine bounds under which [`qm_mul`] is computed exactly.
pub open spec fn qm_mul_fits(a: QM3, b: QM3) -> bool {
    &&& dot3_fits(a.e00, b.e00, a.e01, b.e10, a.e02, b.e20)
    &&& dot3_fits(a.e00, b.e01, a.e01, b.e11, a.e02, b.e21)
    &&& dot3_fits(a.e00, b.e02, a.e01, b.e12, a.e02, b.e22)
    &&& dot3_fits(a.e10, b.e00, a.e11, b.e10, a.e12, b.e20)
    &&& dot3_fits(a.e10, b.e01, a.e11, b.e11, a.e12, b.e21)
    &&& dot3_fits(a.e10, b.e02, a.e11, b.e12, a.e12, b.e22)
    &&& dot3_fits(a.e20, b.e00, a.e21, b.e10, a.e22, b.e20)
    &&& dot3_fits(a.e20, b.e01, a.e21, b.e11, a.e22, b.e21)
    &&& dot3_fits(a.e20, b.e02, a.e21, b.e12, a.e22, b.e22)
    &&& pfits(a.d, b.d)
    &&& fits64(a.d * b.d)
}

/// Machine bounds under which [`qm_mul_v`] is computed exactly.
pub open spec fn qmv_fits(m: QM3, v: QV3) -> bool {
    &&& dot3_fits(m.e00, v.x, m.e01, v.y, m.e02, v.z)
    &&& dot3_fits(m.e10, v.x, m.e11, v.y, m.e12, v.z)
    &&& dot3_fits(m.e20, v.x, m.e21, v.y, m.e22, v.z)
    &&& pfits(m.d, v.d)
    &&& fits64(m.d * v.d)
}

/// Machine bounds under which [`qm_inv`] is computed exactly.
pub open spec fn qm_inv_fits(m: QM3) -> bool {
    &&& pfits(m.e11, m.e22)
    &&& pfits(m.e12, m.e21)
    &&& pfits(m.e02, m.e21)
    &&& pfits(m.e01, m.e22)
    &&& pfits(m.e01, m.e12)
    &&& pfits(m.e02, m.e11)
    &&& pfits(m.e12, m.e20)
    &&& pfits(m.e10, m.e22)
    &&& pfits(m.e00, m.e22)
    &&& pfits(m.e02, m.e20)
    &&& pfits(m.e02, m.e10)
    &&& pfits(m.e00, m.e12)
    &&& pfits(m.e10, m.e21)
    &&& pfits(m.e11, m.e20)
    &&& pfits(m.e01, m.e20)
    &&& pfits(m.e00, m.e21)
    &&& pfits(m.e00, m.e11)
    &&& pfits(m.e01, m.e10)
    &&& pfits(m.e00, qm_adj00(m))
    &&& pfits(m.e01, qm_adj10(m))
    &&& pfits(m.e02, qm_adj20(m))
    &&& fits64(qm_det(m))
    &&& pfits(m.d, qm_adj00(m))
    &&& pfits(m.d, qm_adj01(m))
    &&& pfits(m.d, qm_adj02(m))
    &&& pfits(m.d, qm_adj10(m))
    &&& pfits(m.d, qm_adj11(m))
    &&& pfits(m.d, qm_adj12(m))
    &&& pfits(m.d, qm_adj20(m))
    &&& pfits(m.d, qm_adj21(m))
    &&& pfits(m.d, qm_adj22(m))
    &&& fits64(m.d * qm_adj00(m))
    &&& fits64(m.d * qm_adj01(m))
    &&& fits64(m.d * qm_adj02(m))
    &&& fits64(m.d * qm_adj10(m))
    &&& fits64(m.d * qm_adj11(m))
    &&& fits64(m.d * qm_adj12(m))
    &&& fits64(m.d * qm_adj20(m))
    &&& fits64(m.d * qm_adj21(m))
    &&& fits64(m.d * qm_adj22(m))
}

/// Machine bounds under which [`qh_compose`] is computed exactly.
pub open spec fn qh_compose_fits(x: QHM, y: QHM) -> bool {
    &&& qm_mul_fits(x.m, y.m)
    &&& qmv_fits(x.m, y.t)
    &&& qv_add_fits(qm_mul_v(x.m, y.t), x.t)
}

/// Machine bounds under which [`qh_inv`] is computed exactly.
pub open spec fn qh_inv_fits(h: QHM) -> bool {
    &&& qm_inv_fits(h.m)
    &&& qmv_fits(qm_inv(h.m), h.t)
}

/// Machine bounds under which [`qh_apply_p`] is computed exactly.
pub open spec fn qh_apply_p_fits(h: QHM, p: QV3) -> bool {
    &&& qmv_fits(h.m, p)
    &&& qv_add_fits(qm_mul_v(h.m, p), h.t)
}

/// Machine bounds under which [`qh_apply_ray`] is computed exactly.
pub open spec fn qh_apply_ray_fits(h: QHM, r: QRay) -> bool {
    &&& qh_apply_p_fits(h, r.r0)
    &&& qmv_fits(h.m, r.v)
}

/// The linear part of an affine transform: a 3x3 matrix of exact rationals,
/// nine numerators over one shared positive denominator.
#[derive(Clone, Copy, Debug, PartialEq, Eq, Structural)]
pub struct Matrix3x3 {
    /// Numerator of the entry at row 0, column 0.
    pub n00: i64,
    /// Numerator of the entry at row 0, column 1.
    pub n01: i64,
    /// Numerator of the entry at row 0, column 2.
    pub n02: i64,
    /// Numerator of the entry at row 1, column 0.
    pub n10: i64,
    /// Numerator of the entry at row 1, column 1.
    pub n11: i64,
    /// Numerator of the entry at row 1, column 2.
    pub n12: i64,
    /// Numerator of the entry at row 2, column 0.
    pub n20: i64,
    /// Numerator of the entry at row 2, column 1.
    pub n21: i64,
    /// Numerator of the entry at row 2, column 2.
    pub n22: i64,
    /// Shared positive denominator of all nine entries.
    pub den: i64,
}

impl View for Matrix3x3 {
    type V = QM3;

    open spec fn view(&self) -> QM3 {
        QM3 {
            e00: self.n00 as int,
            e01: self.n01 as int,
            e02: self.n02 as int,
            e10: self.n10 as int,
            e11: self.n11 as int,
            e12: self.n12 as int,
            e20: self.n20 as int,
            e21: self.n21 as int,
            e22: self.n22 as int,
            d: self.den as int,
        }
    }
}

impl Matrix3x3 {
    /// Well-formedness: the shared denominator is positive.
    pub open spec fn wf(self) -> bool {
        qm_wf(self@)
    }

    /// The identity matrix.
    pub fn identity() -> (r: Matrix3x3)
        ensures
            r.wf(),
            r@ == qm_id(),
    {
        Matrix3x3 { n00: 1, n01: 0, n02: 0, n10: 0, n11: 1, n12: 0, n20: 0, n21: 0, n22: 1, den: 1 }
    }

    /// Standard 3x3 matrix product, each cell the dot product of a row of
    /// `self` with a column of `rhs`.
    pub fn mul(&self, rhs: &Matrix3x3) -> (r: Matrix3x3)
        requires
            self.wf(),
            rhs.wf(),
            qm_mul_fits(self@, rhs@),
        ensures
            r.wf(),
            r@ == qm_mul(self@, rhs@),
    {
        proof {
            lemma_pos_prod(self.den as int, rhs.den as int);
        }
        let a00 = self.n00 as i128;
        let a01 = self.n01 as i128;
        let a02 = self.n02 as i128;
        let a10 = self.n10 as i128;
        let a11 = self.n11 as i128;
        let a12 = self.n12 as i128;
        let a20 = self.n20 as i128;
        let a21 = self.n21 as i128;
        let a22 = self.n22 as i128;
        let b00 = rhs.n00 as i128;
        let b01 = rhs.n01 as i128;
        let b02 = rhs.n02 as i128;
        let b10 = rhs.n10 as i128;
        let b11 = rhs.n11 as i128;
        let b12 = rhs.n12 as i128;
        let b20 = rhs.n20 as i128;
        let b21 = rhs.n21 as i128;
        let b22 = rhs.n22 as i128;
        Matrix3x3 {
            n00: (a00 * b00 + a01 * b10 + a02 * b20) as i64,
            n01: (a00 * b01 + a01 * b11 + a02 * b21) as i64,
            n02: (a00 * b02 + a01 * b12 + a02 * b22) as i64,
            n10: (a10 * b00 + a11 * b10 + a12 * b20) as i64,
            n11: (a10 * b01 + a11 * b11 + a12 * b21) as i64,
            n12: (a10 * b02 + a11 * b12 + a12 * b22) as i64,
            n20: (a20 * b00 + a21 * b10 + a22 * b20) as i64,
            n21: (a20 * b01 + a21 * b11 + a22 * b21) as i64,
            n22: (a20 * b02 + a21 * b12 + a22 * b22) as i64,
            den: ((self.den as i128) * (rhs.den as i128)) as i64,
        }
    }

    /// Maps a point through the linear part: row times vector.
    pub fn mul_pos(&self, rhs: &Position) -> (r: Position)
        requires
            self.wf(),
            rhs.wf(),
            qmv_fits(self@, rhs@),
        ensures
            r.wf(),
            r@ == qm_mul_v(self@, rhs@),
    {
        proof {
            lemma_pos_prod(self.den as int, rhs.den as int);
        }
        Position {
            nx: ((self.n00 as i128) * (rhs.nx as i128) + (self.n01 as i128) * (rhs.ny as i128)
                + (self.n02 as i128) * (rhs.nz as i128)) as i64,
            ny: ((self.n10 as i128) * (rhs.nx as i128) + (self.n11 as i128) * (rhs.ny as i128)
                + (self.n12 as i128) * (rhs.nz as i128)) as i64,
            nz: ((self.n20 as i128) * (rhs.nx as i128) + (self.n21 as i128) * (rhs.ny as i128)
                + (self.n22 as i128) * (rhs.nz as i128)) as i64,
            den: ((self.den as i128) * (rhs.den as i128)) as i64,
        }
    }

    /// Maps a free vector through the linear part: row times vector.
    pub fn mul_dir(&self, rhs: &Direction) -> (r: Direction)
        requires
            self.wf(),
            rhs.wf(),
            qmv_fits(self@, rhs@),
        ensures
            r.wf(),
            r@ == qm_mul_v(self@, rhs@),
    {
        proof {
            lemma_pos_prod(self.den as int, rhs.den as int);
        }
        Direction {
            nx: ((self.n00 as i128) * (rhs.nx as i128) + (self.n01 as i128) * (rhs.ny as i128)
                + (self.n02 as i128) * (rhs.nz as i128)) as i64,
            ny: ((self.n10 as i128) * (rhs.nx as i128) + (self.n11 as i128) * (rhs.ny as i128)
                + (self.n12 as i128) * (rhs.nz as i128)) as i64,
            nz: ((self.n20 as i128) * (rhs.nx as i128) + (self.n21 as i128) * (rhs.ny as i128)
                + (self.n22 as i128) * (rhs.nz as i128)) as i64,
            den: ((self.den as i128) * (rhs.den as i128)) as i64,
        }
    }

    /// Maps a free vector through the linear part and negates every
    /// component; used when composing an inverse translation `-(M^-1 * T)`.
    pub fn mul_neg_dir(&self, rhs: &Direction) -> (r: Direction)
        requires
            self.wf(),
            rhs.wf(),
            qmv_fits(self@, rhs@),
        ensures
            r.wf(),
            r@ == qv_neg(qm_mul_v(self@, rhs@)),
    {
        proof {
            lemma_pos_prod(self.den as int, rhs.den as int);
        }
        Direction {
            nx: (-((self.n00 as i128) * (rhs.nx as i128) + (self.n01 as i128) * (rhs.ny as i128)
                + (self.n02 as i128) * (rhs.nz as i128))) as i64,
            ny: (-((self.n10 as i128) * (rhs.nx as i128) + (self.n11 as i128) * (rhs.ny as i128)
                + (self.n12 as i128) * (rhs.nz as i128))) as i64,
            nz: (-((self.n20 as i128) * (rhs.nx as i128) + (self.n21 as i128) * (rhs.ny as i128)
                + (self.n22 as i128) * (rhs.nz as i128))) as i64,
            den: ((self.den as i128) * (rhs.den as i128)) as i64,
        }
    }

    /// Closed-form cofactor (Cramer) inverse.  The nine adjugate numerators,
    /// scaled by the old denominator, become the new numerators; the
    /// determinant numerator becomes the new shared denominator, with signs
    /// normalised so it stays positive.  A singular matrix (determinant
    /// zero) has no inverse, which the precondition rules out.
    pub fn inv(&self) -> (r: Matrix3x3)
        requires
            self.wf(),
            qm_det(self@) != 0,
            qm_inv_fits(self@),
        ensures
            r.wf(),
            r@ == qm_inv(self@),
    {
        let a = self.n00 as i128;
        let b = self.n01 as i128;
        let c = self.n02 as i128;
        let d = self.n10 as i128;
        let e = self.n11 as i128;
        let f = self.n12 as i128;
        let g = self.n20 as i128;
        let h = self.n21 as i128;
        let i = self.n22 as i128;
        let adj00 = e * i - f * h;
        let adj01 = c * h - b * i;
        let adj02 = b * f - c * e;
        let adj10 = f * g - d * i;
        let adj11 = a * i - c * g;
        let adj12 = c * d - a * f;
        let adj20 = d * h - e * g;
        let adj21 = b * g - a * h;
        let adj22 = a * e - b * d;
        let det = a * adj00 + b * adj10 + c * adj20;
        let dd = self.den as i128;
        if det >= 0 {
            Matrix3x3 {
                n00: (dd * adj00) as i64,
                n01: (dd * adj01) as i64,
                n02: (dd * adj02) as i64,
                n10: (dd * adj10) as i64,
                n11: (dd * adj11) as i64,
                n12: (dd * adj12) as i64,
                n20: (dd * adj20) as i64,
                n21: (dd * adj21) as i64,
                n22: (dd * adj22) as i64,
                den: det as i64,
            }
        } else {
            Matrix3x3 {
                n00: (-(dd * adj00)) as i64,
                n01: (-(dd * adj01)) as i64,
                n02: (-(dd * adj02)) as i64,
                n10: (-(dd * adj10)) as i64,
                n11: (-(dd * adj11)) as i64,
                n12: (-(dd * adj12)) as i64,
                n20: (-(dd * adj20)) as i64,
                n21: (-(dd * adj21)) as i64,
                n22: (-(dd * adj22)) as i64,
                den: (-det) as i64,
            }
        }
    }
}

/// A full affine transform: linear part plus translation, representing
/// `p |-> M*p + T` on points and `d |-> M*d` on free vectors.
#[derive(Clone, Copy, Debug, PartialEq, Eq, Structural)]
pub struct HMatrix {
    /// The linear part.
    pub m: Matrix3x3,
    /// The translation, applied after the linear part.
    pub t: Direction,
}

impl View for HMatrix {
    type V = QHM;

    open spec fn view(&self) -> QHM {
        QHM { m: self.m@, t: self.t@ }
    }
}

impl HMatrix {
    /// Well-formedness: both parts have positive denominators.
    pub open spec fn wf(self) -> bool {
        qh_wf(self@)
    }

    /// The identity transform: identity linear part, zero translation.
    pub fn identity() -> (r: HMatrix)
        ensures
            r.wf(),
            r@ == qh_id(),
    {
        HMatrix { m: Matrix3x3::identity(), t: Direction::zero() }
    }

    /// True affine composition: the result applies `rhs` first and `self`
    /// second, so its linear part is `self.m * rhs.m` and its translation is
    /// `self.m * rhs.t + self.t`.
    pub fn mul(&self, rhs: &HMatrix) -> (r: HMatrix)
        requires
            self.wf(),
            rhs.wf(),
            qh_compose_fits(self@, rhs@),
        ensures
            r.wf(),
            r@ == qh_compose(self@, rhs@),
    {
        HMatrix { m: self.m.mul(&rhs.m), t: self.m.mul_dir(&rhs.t).add_dir(&self.t) }
    }

    /// Maps a free vector: the translation is ignored.
    pub fn mul_dir(&self, rhs: &Direction) -> (r: Direction)
        requires
            self.wf(),
            rhs.wf(),
            qmv_fits(self@.m, rhs@),
        ensures
            r.wf(),
            r@ == qh_apply_d(self@, rhs@),
    {
        self.m.mul_dir(rhs)
    }

    /// Maps a point: linear part first, then the translation.
    pub fn mul_pos(&self, rhs: &Position) -> (r: Position)
        requires
            self.wf(),
            rhs.wf(),
            qh_apply_p_fits(self@, rhs@),
        ensures
            r.wf(),
            r@ == qh_apply_p(self@, rhs@),
    {
        self.m.mul_pos(rhs).add_dir(&self.t)
    }

    /// Exact affine inverse: inverse linear part, translation
    /// `-(M^-1 * T)`.
    pub fn inv(&self) -> (r: HMatrix)
        requires
            self.wf(),
            qm_det(self@.m) != 0,
            qh_inv_fits(self@),
        ensures
            r.wf(),
            r@ == qh_inv(self@),
    {
        let am1 = self.m.inv();
        HMatrix { t: am1.mul_neg_dir(&self.t), m: am1 }
    }

    /// Maps a ray into another frame: the origin as a point, the direction
    /// as a free vector.
    pub fn mul_ray(&self, rhs: &Ray) -> (r: Ray)
        requires
            self.wf(),
            rhs.wf(),
            qh_apply_ray_fits(self@, rhs@),
        ensures
            r.wf(),
            r@ == qh_apply_ray(self@, rhs@),
    {
        Ray { r0: self.mul_pos(&rhs.r0), v: self.mul_dir(&rhs.v) }
    }
}

} // verus!
