//! Exact 3x3 matrices: integer entries over one positive denominator, with
//! the same row-vector transform and composition conventions as the 2x2 and
//! 4x4 types.

#![allow(non_snake_case)]

use vstd::prelude::*;
use crate::rat::{
    Rat, Ratio, MathError, ratio_eq, ratio_fits, mul_sign, lemma_mul_bound, wmul32, wsq32,
};
use crate::vectors::{Vector3, Vec3Model, v3_fits, in_i32};

verus! {

/// Mathematical model: integer entries over one positive denominator.
pub ghost struct Mat33Model {
    pub m00: int, pub m01: int, pub m02: int,
    pub m10: int, pub m11: int, pub m12: int,
    pub m20: int, pub m21: int, pub m22: int,
    pub d: int,
}

pub open spec fn m33_wf(m: Mat33Model) -> bool {
    0 < m.d <= 0x7fff_ffff
        && in_i32(m.m00) && in_i32(m.m01) && in_i32(m.m02)
        && in_i32(m.m10) && in_i32(m.m11) && in_i32(m.m12)
        && in_i32(m.m20) && in_i32(m.m21) && in_i32(m.m22)
}

pub open spec fn m33_fits(m: Mat33Model) -> bool {
    m33_wf(m)
}

/// Entrywise value equality.
pub open spec fn m33_veq(a: Mat33Model, b: Mat33Model) -> bool {
    ratio_eq(Ratio { n: a.m00, d: a.d }, Ratio { n: b.m00, d: b.d })
        && ratio_eq(Ratio { n: a.m01, d: a.d }, Ratio { n: b.m01, d: b.d })
        && ratio_eq(Ratio { n: a.m02, d: a.d }, Ratio { n: b.m02, d: b.d })
        && ratio_eq(Ratio { n: a.m10, d: a.d }, Ratio { n: b.m10, d: b.d })
        && ratio_eq(Ratio { n: a.m11, d: a.d }, Ratio { n: b.m11, d: b.d })
        && ratio_eq(Ratio { n: a.m12, d: a.d }, Ratio { n: b.m12, d: b.d })
        && ratio_eq(Ratio { n: a.m20, d: a.d }, Ratio { n: b.m20, d: b.d })
        && ratio_eq(Ratio { n: a.m21, d: a.d }, Ratio { n: b.m21, d: b.d })
        && ratio_eq(Ratio { n: a.m22, d: a.d }, Ratio { n: b.m22, d: b.d })
}

pub open spec fn m33_identity() -> Mat33Model {
    Mat33Model { m00: 1, m01: 0, m02: 0, m10: 0, m11: 1, m12: 0, m20: 0, m21: 0, m22: 1, d: 1 }
}

pub open spec fn m33_zero() -> Mat33Model {
    Mat33Model { m00: 0, m01: 0, m02: 0, m10: 0, m11: 0, m12: 0, m20: 0, m21: 0, m22: 0, d: 1 }
}

pub open spec fn m33_add(a: Mat33Model, b: Mat33Model) -> Mat33Model {
    Mat33Model {
        m00: a.m00 * b.d + b.m00 * a.d,
        m01: a.m01 * b.d + b.m01 * a.d,
        m02: a.m02 * b.d + b.m02 * a.d,
        m10: a.m10 * b.d + b.m10 * a.d,
        m11: a.m11 * b.d + b.m11 * a.d,
        m12: a.m12 * b.d + b.m12 * a.d,
        m20: a.m20 * b.d + b.m20 * a.d,
        m21: a.m21 * b.d + b.m21 * a.d,
        m22: a.m22 * b.d + b.m22 * a.d,
        d: a.d * b.d,
    }
}

pub open spec fn m33_sub(a: Mat33Model, b: Mat33Model) -> Mat33Model {
    Mat33Model {
        m00: a.m00 * b.d - b.m00 * a.d,
        m01: a.m01 * b.d - b.m01 * a.d,
        m02: a.m02 * b.d - b.m02 * a.d,
        m10: a.m10 * b.d - b.m10 * a.d,
        m11: a.m11 * b.d - b.m11 * a.d,
        m12: a.m12 * b.d - b.m12 * a.d,
        m20: a.m20 * b.d - b.m20 * a.d,
        m21: a.m21 * b.d - b.m21 * a.d,
        m22: a.m22 * b.d - b.m22 * a.d,
        d: a.d * b.d,
    }
}

/// Composition: transforming by `m33_mul(m1, m2)` is transforming by `m2`
/// first, then by `m1`.
pub open spec fn m33_mul(m1: Mat33Model, m2: Mat33Model) -> Mat33Model {
    Mat33Model {
        m00: m1.m00 * m2.m00 + m1.m10 * m2.m01 + m1.m20 * m2.m02,
        m01: m1.m01 * m2.m00 + m1.m11 * m2.m01 + m1.m21 * m2.m02,
        m02: m1.m02 * m2.m00 + m1.m12 * m2.m01 + m1.m22 * m2.m02,
        m10: m1.m00 * m2.m10 + m1.m10 * m2.m11 + m1.m20 * m2.m12,
        m11: m1.m01 * m2.m10 + m1.m11 * m2.m11 + m1.m21 * m2.m12,
        m12: m1.m02 * m2.m10 + m1.m12 * m2.m11 + m1.m22 * m2.m12,
        m20: m1.m00 * m2.m20 + m1.m10 * m2.m21 + m1.m20 * m2.m22,
        m21: m1.m01 * m2.m20 + m1.m11 * m2.m21 + m1.m21 * m2.m22,
        m22: m1.m02 * m2.m20 + m1.m12 * m2.m21 + m1.m22 * m2.m22,
        d: m1.d * m2.d,
    }
}

/// Row-vector transform.
pub open spec fn m33_trans(m: Mat33Model, v: Vec3Model) -> Vec3Model {
    Vec3Model {
        x: m.m00 * v.x + m.m10 * v.y + m.m20 * v.z,
        y: m.m01 * v.x + m.m11 * v.y + m.m21 * v.z,
        z: m.m02 * v.x + m.m12 * v.y + m.m22 * v.z,
        d: m.d * v.d,
    }
}

pub open spec fn m33_transpose(m: Mat33Model) -> Mat33Model {
    Mat33Model {
        m00: m.m00, m01: m.m10, m02: m.m20,
        m10: m.m01, m11: m.m11, m12: m.m21,
        m20: m.m02, m21: m.m12, m22: m.m22,
        d: m.d,
    }
}

pub open spec fn m33_neg(m: Mat33Model) -> Mat33Model {
    Mat33Model {
        m00: -m.m00, m01: -m.m01, m02: -m.m02,
        m10: -m.m10, m11: -m.m11, m12: -m.m12,
        m20: -m.m20, m21: -m.m21, m22: -m.m22,
        d: m.d,
    }
}

/// Cofactor expansion along the first row, over the denominator `d^3`.
pub open spec fn m33_det(m: Mat33Model) -> Ratio {
    Ratio {
        n: m.m00 * (m.m11 * m.m22 - m.m12 * m.m21)
            + m.m01 * (m.m12 * m.m20 - m.m10 * m.m22)
            + m.m02 * (m.m10 * m.m21 - m.m11 * m.m20),
        d: m.d * m.d * m.d,
    }
}

/// The exact inverse: the transposed cofactors over the determinant, with
/// the determinant's sign moved into the entries. Meaningful only when the
/// determinant is non-zero.
pub open spec fn m33_inv(m: Mat33Model) -> Mat33Model {
    let det = m.m00 * (m.m11 * m.m22 - m.m12 * m.m21)
        + m.m01 * (m.m12 * m.m20 - m.m10 * m.m22)
        + m.m02 * (m.m10 * m.m21 - m.m11 * m.m20);
    let s: int = if det >= 0 { 1 } else { -1 };
    Mat33Model {
        m00: (m.m11 * m.m22 - m.m12 * m.m21) * m.d * s,
        m01: (m.m02 * m.m21 - m.m01 * m.m22) * m.d * s,
        m02: (m.m01 * m.m12 - m.m02 * m.m11) * m.d * s,
        m10: (m.m12 * m.m20 - m.m10 * m.m22) * m.d * s,
        m11: (m.m00 * m.m22 - m.m02 * m.m20) * m.d * s,
        m12: (m.m02 * m.m10 - m.m00 * m.m12) * m.d * s,
        m20: (m.m10 * m.m21 - m.m11 * m.m20) * m.d * s,
        m21: (m.m01 * m.m20 - m.m00 * m.m21) * m.d * s,
        m22: (m.m00 * m.m11 - m.m01 * m.m10) * m.d * s,
        d: det * s,
    }
}

/// An exact 3x3 matrix.
#[derive(Clone, Copy, Debug, PartialEq, Eq, Structural)]
pub struct Matrix33 {
    pub m00: i32, pub m01: i32, pub m02: i32,
    pub m10: i32, pub m11: i32, pub m12: i32,
    pub m20: i32, pub m21: i32, pub m22: i32,
    pub den: i32,
}

impl View for Matrix33 {
    type V = Mat33Model;

    open spec fn view(&self) -> Mat33Model {
        Mat33Model {
            m00: self.m00 as int, m01: self.m01 as int, m02: self.m02 as int,
            m10: self.m10 as int, m11: self.m11 as int, m12: self.m12 as int,
            m20: self.m20 as int, m21: self.m21 as int, m22: self.m22 as int,
            d: self.den as int,
        }
    }
}

impl Default for Matrix33 {
    /// The identity matrix.
    fn default() -> (r: Matrix33)
        ensures
            r.wf(),
            r@ == m33_identity(),
    {
        Matrix33 { m00: 1, m01: 0, m02: 0, m10: 0, m11: 1, m12: 0, m20: 0, m21: 0, m22: 1, den: 1 }
    }
}

impl Matrix33 {
    pub open spec fn wf(&self) -> bool {
        m33_wf(self@)
    }

    pub fn add(m1: &Matrix33, m2: &Matrix33) -> (r: Result<Matrix33, MathError>)
        requires
            m1.wf(),
            m2.wf(),
        ensures
            r matches Ok(m) ==> m.wf() && m@ == m33_add(m1@, m2@),
            (r is Ok) == m33_fits(m33_add(m1@, m2@)),
            r matches Err(e) ==> e == MathError::NumericOverflow,
    {
        Matrix33::fit(
            wmul32(m1.m00, m2.den) as i128 + wmul32(m2.m00, m1.den) as i128,
            wmul32(m1.m01, m2.den) as i128 + wmul32(m2.m01, m1.den) as i128,
            wmul32(m1.m02, m2.den) as i128 + wmul32(m2.m02, m1.den) as i128,
            wmul32(m1.m10, m2.den) as i128 + wmul32(m2.m10, m1.den) as i128,
            wmul32(m1.m11, m2.den) as i128 + wmul32(m2.m11, m1.den) as i128,
            wmul32(m1.m12, m2.den) as i128 + wmul32(m2.m12, m1.den) as i128,
            wmul32(m1.m20, m2.den) as i128 + wmul32(m2.m20, m1.den) as i128,
            wmul32(m1.m21, m2.den) as i128 + wmul32(m2.m21, m1.den) as i128,
            wmul32(m1.m22, m2.den) as i128 + wmul32(m2.m22, m1.den) as i128,
            wmul32(m1.den, m2.den) as i128,
        )
    }

    pub fn sub(m1: &Matrix33, m2: &Matrix33) -> (r: Result<Matrix33, MathError>)
        requires
            m1.wf(),
            m2.wf(),
        ensures
            r matches Ok(m) ==> m.wf() && m@ == m33_sub(m1@, m2@),
            (r is Ok) == m33_fits(m33_sub(m1@, m2@)),
            r matches Err(e) ==> e == MathError::NumericOverflow,
    {
        Matrix33::fit(
            wmul32(m1.m00, m2.den) as i128 - wmul32(m2.m00, m1.den) as i128,
            wmul32(m1.m01, m2.den) as i128 - wmul32(m2.m01, m1.den) as i128,
            wmul32(m1.m02, m2.den) as i128 - wmul32(m2.m02, m1.den) as i128,
            wmul32(m1.m10, m2.den) as i128 - wmul32(m2.m10, m1.den) as i128,
            wmul32(m1.m11, m2.den) as i128 - wmul32(m2.m11, m1.den) as i128,
            wmul32(m1.m12, m2.den) as i128 - wmul32(m2.m12, m1.den) as i128,
            wmul32(m1.m20, m2.den) as i128 - wmul32(m2.m20, m1.den) as i128,
            wmul32(m1.m21, m2.den) as i128 - wmul32(m2.m21, m1.den) as i128,
            wmul32(m1.m22, m2.den) as i128 - wmul32(m2.m22, m1.den) as i128,
            wmul32(m1.den, m2.den) as i128,
        )
    }

    pub fn mul(m1: &Matrix33, m2: &Matrix33) -> (r: Result<Matrix33, MathError>)
        requires
            m1.wf(),
            m2.wf(),
        ensures
            r matches Ok(m) ==> m.wf() && m@ == m33_mul(m1@, m2@),
            (r is Ok) == m33_fits(m33_mul(m1@, m2@)),
            r matches Err(e) ==> e == MathError::NumericOverflow,
    {
        Matrix33::fit(
            wmul32(m1.m00, m2.m00) as i128 + wmul32(m1.m10, m2.m01) as i128 + wmul32(m1.m20, m2.m02) as i128,
            wmul32(m1.m01, m2.m00) as i128 + wmul32(m1.m11, m2.m01) as i128 + wmul32(m1.m21, m2.m02) as i128,
            wmul32(m1.m02, m2.m00) as i128 + wmul32(m1.m12, m2.m01) as i128 + wmul32(m1.m22, m2.m02) as i128,
            wmul32(m1.m00, m2.m10) as i128 + wmul32(m1.m10, m2.m11) as i128 + wmul32(m1.m20, m2.m12) as i128,
            wmul32(m1.m01, m2.m10) as i128 + wmul32(m1.m11, m2.m11) as i128 + wmul32(m1.m21, m2.m12) as i128,
            wmul32(m1.m02, m2.m10) as i128 + wmul32(m1.m12, m2.m11) as i128 + wmul32(m1.m22, m2.m12) as i128,
            wmul32(m1.m00, m2.m20) as i128 + wmul32(m1.m10, m2.m21) as i128 + wmul32(m1.m20, m2.m22) as i128,
            wmul32(m1.m01, m2.m20) as i128 + wmul32(m1.m11, m2.m21) as i128 + wmul32(m1.m21, m2.m22) as i128,
            wmul32(m1.m02, m2.m20) as i128 + wmul32(m1.m12, m2.m21) as i128 + wmul32(m1.m22, m2.m22) as i128,
            wmul32(m1.den, m2.den) as i128,
        )
    }

    /// Applies `m` to the row vector `v`.
    pub fn trans(m: &Matrix33, v: &Vector3) -> (r: Result<Vector3, MathError>)
        requires
            m.wf(),
            v.wf(),
        ensures
            r matches Ok(u) ==> u.wf() && u@ == m33_trans(m@, v@),
            (r is Ok) == v3_fits(m33_trans(m@, v@)),
            r matches Err(e) ==> e == MathError::NumericOverflow,
    {
        let x: i128 = wmul32(m.m00, v.x) as i128 + wmul32(m.m10, v.y) as i128
            + wmul32(m.m20, v.z) as i128;
        let y: i128 = wmul32(m.m01, v.x) as i128 + wmul32(m.m11, v.y) as i128
            + wmul32(m.m21, v.z) as i128;
        let z: i128 = wmul32(m.m02, v.x) as i128 + wmul32(m.m12, v.y) as i128
            + wmul32(m.m22, v.z) as i128;
        let d: i128 = wmul32(m.den, v.den) as i128;
        if 0 < d && d <= 0x7fff_ffff && -0x7fff_ffff <= x && x <= 0x7fff_ffff
            && -0x7fff_ffff <= y && y <= 0x7fff_ffff && -0x7fff_ffff <= z && z <= 0x7fff_ffff {
            Ok(Vector3 { x: x as i32, y: y as i32, z: z as i32, den: d as i32 })
        } else {
            Err(MathError::NumericOverflow)
        }
    }

    pub fn setIdentity(&mut self)
        ensures
            final(self).wf(),
            final(self)@ == m33_identity(),
    {
        self.m00 = 1; self.m01 = 0; self.m02 = 0;
        self.m10 = 0; self.m11 = 1; self.m12 = 0;
        self.m20 = 0; self.m21 = 0; self.m22 = 1;
        self.den = 1;
    }

    pub fn setZero(&mut self)
        ensures
            final(self).wf(),
            final(self)@ == m33_zero(),
    {
        self.m00 = 0; self.m01 = 0; self.m02 = 0;
        self.m10 = 0; self.m11 = 0; self.m12 = 0;
        self.m20 = 0; self.m21 = 0; self.m22 = 0;
        self.den = 1;
    }

    pub fn transpose(&mut self)
        requires
            old(self).wf(),
        ensures
            final(self).wf(),
            final(self)@ == m33_transpose(old(self)@),
    {
        let m01: i32 = self.m10;
        let m02: i32 = self.m20;
        let m10: i32 = self.m01;
        let m12: i32 = self.m21;
        let m20: i32 = self.m02;
        let m21: i32 = self.m12;
        self.m01 = m01;
        self.m02 = m02;
        self.m10 = m10;
        self.m12 = m12;
        self.m20 = m20;
        self.m21 = m21;
    }

    pub fn negate(&mut self)
        requires
            old(self).wf(),
        ensures
            final(self).wf(),
            final(self)@ == m33_neg(old(self)@),
    {
        self.m00 = -self.m00; self.m01 = -self.m01; self.m02 = -self.m02;
        self.m10 = -self.m10; self.m11 = -self.m11; self.m12 = -self.m12;
        self.m20 = -self.m20; self.m21 = -self.m21; self.m22 = -self.m22;
    }

    /// The exact determinant, when it is representable.
    pub fn det(&self) -> (r: Result<Rat, MathError>)
        requires
            self.wf(),
        ensures
            r matches Ok(q) ==> q.wf() && q@ == m33_det(self@),
            (r is Ok) == ratio_fits(m33_det(self@)),
            r matches Err(e) ==> e == MathError::NumericOverflow,
    {
        let n: i128 = self.det_num();
        let d2: i64 = wsq32(self.den);
        proof {
            lemma_mul_bound(d2 as int, self@.d, 0x4000_0000_0000_0000, 0x7fff_ffff);
        }
        let d: i128 = (d2 as i128) * (self.den as i128);
        proof {
            assert(d2 as int * self@.d == self@.d * self@.d * self@.d) by (nonlinear_arith)
                requires d2 as int == self@.d * self@.d;
        }
        Rat::fit(n, d)
    }

    /// The determinant's numerator over `den^3`, exactly, in a wide integer.
    fn det_num(&self) -> (r: i128)
        requires
            self.wf(),
        ensures
            r as int == m33_det(self@).n,
            -0x1_0000_0000_0000_0000_0000_0000 <= r as int <= 0x1_0000_0000_0000_0000_0000_0000,
    {
        let c0: i128 = wmul32(self.m11, self.m22) as i128 - wmul32(self.m12, self.m21) as i128;
        let c1: i128 = wmul32(self.m12, self.m20) as i128 - wmul32(self.m10, self.m22) as i128;
        let c2: i128 = wmul32(self.m10, self.m21) as i128 - wmul32(self.m11, self.m20) as i128;
        proof {
            lemma_mul_bound(self@.m00, c0 as int, 0x8000_0000, 0x8000_0000_0000_0000);
            lemma_mul_bound(self@.m01, c1 as int, 0x8000_0000, 0x8000_0000_0000_0000);
            lemma_mul_bound(self@.m02, c2 as int, 0x8000_0000, 0x8000_0000_0000_0000);
        }
        (self.m00 as i128) * c0 + (self.m01 as i128) * c1 + (self.m02 as i128) * c2
    }

    /// Replaces the matrix with its inverse. A singular matrix is left
    /// unchanged and reported as degenerate; an inverse that does not fit
    /// the representation leaves the matrix unchanged as well.
    pub fn invert(&mut self) -> (r: Result<(), MathError>)
        requires
            old(self).wf(),
        ensures
            r is Ok ==> final(self).wf() && final(self)@ == m33_inv(old(self)@),
            (r is Ok) == (m33_det(old(self)@).n != 0 && m33_fits(m33_inv(old(self)@))),
            r is Err ==> *final(self) == *old(self),
            m33_det(old(self)@).n == 0 ==> (r matches Err(e) ==> e == MathError::DegenerateGeometry),
            m33_det(old(self)@).n != 0 ==> (r matches Err(e) ==> e == MathError::NumericOverflow),
    {
        let det: i128 = self.det_num();
        if det == 0 {
            return Err(MathError::DegenerateGeometry);
        }
        let sg: i64 = if det < 0 { -1 } else { 1 };
        let n00: i128 = mul_sign(Matrix33::adj(self.m11, self.m22, self.m12, self.m21, self.den), sg);
        let n01: i128 = mul_sign(Matrix33::adj(self.m02, self.m21, self.m01, self.m22, self.den), sg);
        let n02: i128 = mul_sign(Matrix33::adj(self.m01, self.m12, self.m02, self.m11, self.den), sg);
        let n10: i128 = mul_sign(Matrix33::adj(self.m12, self.m20, self.m10, self.m22, self.den), sg);
        let n11: i128 = mul_sign(Matrix33::adj(self.m00, self.m22, self.m02, self.m20, self.den), sg);
        let n12: i128 = mul_sign(Matrix33::adj(self.m02, self.m10, self.m00, self.m12, self.den), sg);
        let n20: i128 = mul_sign(Matrix33::adj(self.m10, self.m21, self.m11, self.m20, self.den), sg);
        let n21: i128 = mul_sign(Matrix33::adj(self.m01, self.m20, self.m00, self.m21, self.den), sg);
        let n22: i128 = mul_sign(Matrix33::adj(self.m00, self.m11, self.m01, self.m10, self.den), sg);
        let dd: i128 = mul_sign(det, sg);
        match Matrix33::fit(n00, n01, n02, n10, n11, n12, n20, n21, n22, dd) {
            Ok(m) => {
                *self = m;
                Ok(())
            }
            Err(e) => Err(e),
        }
    }

    /// One scaled cofactor, `(a * b - c * e) * d`, in wide integers.
    fn adj(a: i32, b: i32, c: i32, e: i32, d: i32) -> (r: i128)
        ensures
            r as int == ((a as int) * (b as int) - (c as int) * (e as int)) * (d as int),
            -0x4000_0000_0000_0000_0000_0000 <= r as int <= 0x4000_0000_0000_0000_0000_0000,
    {
        let t: i128 = wmul32(a, b) as i128 - wmul32(c, e) as i128;
        proof {
            lemma_mul_bound(t as int, d as int, 0x8000_0000_0000_0000, 0x8000_0000);
        }
        t * (d as i128)
    }

    #[verifier::rlimit(30)]
    fn fit(
        n00: i128, n01: i128, n02: i128,
        n10: i128, n11: i128, n12: i128,
        n20: i128, n21: i128, n22: i128,
        d: i128,
    ) -> (r: Result<Matrix33, MathError>)
        ensures
            r matches Ok(m) ==> m.wf()
                && m@ == (Mat33Model {
                    m00: n00 as int, m01: n01 as int, m02: n02 as int,
                    m10: n10 as int, m11: n11 as int, m12: n12 as int,
                    m20: n20 as int, m21: n21 as int, m22: n22 as int,
                    d: d as int }),
            (r is Ok) == m33_fits(Mat33Model {
                m00: n00 as int, m01: n01 as int, m02: n02 as int,
                m10: n10 as int, m11: n11 as int, m12: n12 as int,
                m20: n20 as int, m21: n21 as int, m22: n22 as int,
                d: d as int }),
            r matches Err(e) ==> e == MathError::NumericOverflow,
    {
        if 0 < d && d <= 0x7fff_ffff
            && -0x7fff_ffff <= n00 && n00 <= 0x7fff_ffff
            && -0x7fff_ffff <= n01 && n01 <= 0x7fff_ffff
            && -0x7fff_ffff <= n02 && n02 <= 0x7fff_ffff
            && -0x7fff_ffff <= n10 && n10 <= 0x7fff_ffff
            && -0x7fff_ffff <= n11 && n11 <= 0x7fff_ffff
            && -0x7fff_ffff <= n12 && n12 <= 0x7fff_ffff
            && -0x7fff_ffff <= n20 && n20 <= 0x7fff_ffff
            && -0x7fff_ffff <= n21 && n21 <= 0x7fff_ffff
            && -0x7fff_ffff <= n22 && n22 <= 0x7fff_ffff {
            Ok(Matrix33 {
                m00: n00 as i32, m01: n01 as i32, m02: n02 as i32,
                m10: n10 as i32, m11: n11 as i32, m12: n12 as i32,
                m20: n20 as i32, m21: n21 as i32, m22: n22 as i32,
                den: d as i32,
            })
        } else {
            Err(MathError::NumericOverflow)
        }
    }
}

// ------------------------------------------------------------------- laws

/// Multiplying by the identity on either side leaves every entry's value
/// unchanged.
pub proof fn lemma_mul_identity_m33(m: Mat33Model)
    requires
        m33_wf(m),
    ensures
        m33_veq(m33_mul(m, m33_identity()), m),
        m33_veq(m33_mul(m33_identity(), m), m),
{
    lemma_identity_entry(m.m00, m.m10, m.m20, m.d);
    lemma_identity_entry(m.m01, m.m11, m.m21, m.d);
    lemma_identity_entry(m.m02, m.m12, m.m22, m.d);
    lemma_identity_entry(m.m00, m.m01, m.m02, m.d);
    lemma_identity_entry(m.m10, m.m11, m.m12, m.d);
    lemma_identity_entry(m.m20, m.m21, m.m22, m.d);
}

/// One entry of a product against the identity: the two zero terms drop and
/// the denominators cancel.
proof fn lemma_identity_entry(a: int, b: int, c: int, d: int)
    by (nonlinear_arith)
    ensures
        (a * 1 + b * 0 + c * 0) * d == a * (d * 1),
        (a * 0 + b * 1 + c * 0) * d == b * (d * 1),
        (a * 0 + b * 0 + c * 1) * d == c * (d * 1),
        (1 * a + 0 * b + 0 * c) * d == a * (1 * d),
        (0 * a + 1 * b + 0 * c) * d == b * (1 * d),
        (0 * a + 0 * b + 1 * c) * d == c * (1 * d),
{
}


} // verus!
