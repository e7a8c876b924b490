//! Exact 2x2 matrices: integer entries over one positive denominator.
//! The entry `m<row><col>` layout and the multiplication and transform
//! conventions follow the companion 3x3 and 4x4 types: `trans` applies the
//! matrix to a row vector, and `mul(m1, m2)` composes so that transforming
//! by the product equals transforming by `m2` first and then by `m1`.

#![allow(non_snake_case)]

use vstd::prelude::*;
use crate::rat::{
    Rat, Ratio, MathError, ratio_eq, mul_sign, wmul32, wsq32,
};
use crate::vectors::{Vector2, Vec2Model, v2_fits, in_i32};

verus! {

/// Mathematical model: integer entries over one positive denominator.
pub ghost struct Mat22Model {
    pub m00: int,
    pub m01: int,
    pub m10: int,
    pub m11: int,
    pub d: int,
}

pub open spec fn m22_wf(m: Mat22Model) -> bool {
    0 < m.d <= 0x7fff_ffff && in_i32(m.m00) && in_i32(m.m01) && in_i32(m.m10) && in_i32(m.m11)
}

pub open spec fn m22_fits(m: Mat22Model) -> bool {
    m22_wf(m)
}

/// Entrywise value equality.
pub open spec fn m22_veq(a: Mat22Model, b: Mat22Model) -> bool {
    ratio_eq(Ratio { n: a.m00, d: a.d }, Ratio { n: b.m00, d: b.d })
        && ratio_eq(Ratio { n: a.m01, d: a.d }, Ratio { n: b.m01, d: b.d })
        && ratio_eq(Ratio { n: a.m10, d: a.d }, Ratio { n: b.m10, d: b.d })
        && ratio_eq(Ratio { n: a.m11, d: a.d }, Ratio { n: b.m11, d: b.d })
}

pub open spec fn m22_identity() -> Mat22Model {
    Mat22Model { m00: 1, m01: 0, m10: 0, m11: 1, d: 1 }
}

pub open spec fn m22_zero() -> Mat22Model {
    Mat22Model { m00: 0, m01: 0, m10: 0, m11: 0, d: 1 }
}

pub open spec fn m22_add(a: Mat22Model, b: Mat22Model) -> Mat22Model {
    Mat22Model {
        m00: a.m00 * b.d + b.m00 * a.d,
        m01: a.m01 * b.d + b.m01 * a.d,
        m10: a.m10 * b.d + b.m10 * a.d,
        m11: a.m11 * b.d + b.m11 * a.d,
        d: a.d * b.d,
    }
}

pub open spec fn m22_sub(a: Mat22Model, b: Mat22Model) -> Mat22Model {
    Mat22Model {
        m00: a.m00 * b.d - b.m00 * a.d,
        m01: a.m01 * b.d - b.m01 * a.d,
        m10: a.m10 * b.d - b.m10 * a.d,
        m11: a.m11 * b.d - b.m11 * a.d,
        d: a.d * b.d,
    }
}

/// Composition: transforming by `m22_mul(m1, m2)` is transforming by `m2`
/// first, then by `m1`.
pub open spec fn m22_mul(m1: Mat22Model, m2: Mat22Model) -> Mat22Model {
    Mat22Model {
        m00: m1.m00 * m2.m00 + m1.m10 * m2.m01,
        m01: m1.m01 * m2.m00 + m1.m11 * m2.m01,
        m10: m1.m00 * m2.m10 + m1.m10 * m2.m11,
        m11: m1.m01 * m2.m10 + m1.m11 * m2.m11,
        d: m1.d * m2.d,
    }
}

/// Row-vector transform: component `j` of the result is `v` dotted with
/// column `j`.
pub open spec fn m22_trans(m: Mat22Model, v: Vec2Model) -> Vec2Model {
    Vec2Model {
        x: m.m00 * v.x + m.m10 * v.y,
        y: m.m01 * v.x + m.m11 * v.y,
        d: m.d * v.d,
    }
}

pub open spec fn m22_transpose(m: Mat22Model) -> Mat22Model {
    Mat22Model { m00: m.m00, m01: m.m10, m10: m.m01, m11: m.m11, d: m.d }
}

pub open spec fn m22_neg(m: Mat22Model) -> Mat22Model {
    Mat22Model { m00: -m.m00, m01: -m.m01, m10: -m.m10, m11: -m.m11, d: m.d }
}

pub open spec fn m22_det(m: Mat22Model) -> Ratio {
    Ratio { n: m.m00 * m.m11 - m.m01 * m.m10, d: m.d * m.d }
}

/// The exact inverse: the adjugate over the determinant, with the sign of
/// the determinant moved into the entries so the denominator stays positive.
/// Meaningful only when the determinant is non-zero.
pub open spec fn m22_inv(m: Mat22Model) -> Mat22Model {
    let det = m.m00 * m.m11 - m.m01 * m.m10;
    let s: int = if det >= 0 { 1 } else { -1 };
    Mat22Model {
        m00: m.m11 * m.d * s,
        m01: -m.m01 * m.d * s,
        m10: -m.m10 * m.d * s,
        m11: m.m00 * m.d * s,
        d: det * s,
    }
}

/// An exact 2x2 matrix.
#[derive(Clone, Copy, Debug, PartialEq, Eq, Structural)]
pub struct Matrix22 {
    pub m00: i32,
    pub m01: i32,
    pub m10: i32,
    pub m11: i32,
    pub den: i32,
}

impl View for Matrix22 {
    type V = Mat22Model;

    open spec fn view(&self) -> Mat22Model {
        Mat22Model {
            m00: self.m00 as int,
            m01: self.m01 as int,
            m10: self.m10 as int,
            m11: self.m11 as int,
            d: self.den as int,
        }
    }
}

impl Default for Matrix22 {
    /// The identity matrix.
    fn default() -> (r: Matrix22)
        ensures
            r.wf(),
            r@ == m22_identity(),
    {
        Matrix22 { m00: 1, m01: 0, m10: 0, m11: 1, den: 1 }
    }
}

impl Matrix22 {
    pub open spec fn wf(&self) -> bool {
        m22_wf(self@)
    }

    pub fn add(m1: &Matrix22, m2: &Matrix22) -> (r: Result<Matrix22, MathError>)
        requires
            m1.wf(),
            m2.wf(),
        ensures
            r matches Ok(m) ==> m.wf() && m@ == m22_add(m1@, m2@),
            (r is Ok) == m22_fits(m22_add(m1@, m2@)),
            r matches Err(e) ==> e == MathError::NumericOverflow,
    {
        Matrix22::fit(
            wmul32(m1.m00, m2.den) as i128 + wmul32(m2.m00, m1.den) as i128,
            wmul32(m1.m01, m2.den) as i128 + wmul32(m2.m01, m1.den) as i128,
            wmul32(m1.m10, m2.den) as i128 + wmul32(m2.m10, m1.den) as i128,
            wmul32(m1.m11, m2.den) as i128 + wmul32(m2.m11, m1.den) as i128,
            wmul32(m1.den, m2.den) as i128,
        )
    }

    pub fn sub(m1: &Matrix22, m2: &Matrix22) -> (r: Result<Matrix22, MathError>)
        requires
            m1.wf(),
            m2.wf(),
        ensures
            r matches Ok(m) ==> m.wf() && m@ == m22_sub(m1@, m2@),
            (r is Ok) == m22_fits(m22_sub(m1@, m2@)),
            r matches Err(e) ==> e == MathError::NumericOverflow,
    {
        Matrix22::fit(
            wmul32(m1.m00, m2.den) as i128 - wmul32(m2.m00, m1.den) as i128,
            wmul32(m1.m01, m2.den) as i128 - wmul32(m2.m01, m1.den) as i128,
            wmul32(m1.m10, m2.den) as i128 - wmul32(m2.m10, m1.den) as i128,
            wmul32(m1.m11, m2.den) as i128 - wmul32(m2.m11, m1.den) as i128,
            wmul32(m1.den, m2.den) as i128,
        )
    }

    pub fn mul(m1: &Matrix22, m2: &Matrix22) -> (r: Result<Matrix22, MathError>)
        requires
            m1.wf(),
            m2.wf(),
        ensures
            r matches Ok(m) ==> m.wf() && m@ == m22_mul(m1@, m2@),
            (r is Ok) == m22_fits(m22_mul(m1@, m2@)),
            r matches Err(e) ==> e == MathError::NumericOverflow,
    {
        Matrix22::fit(
            wmul32(m1.m00, m2.m00) as i128 + wmul32(m1.m10, m2.m01) as i128,
            wmul32(m1.m01, m2.m00) as i128 + wmul32(m1.m11, m2.m01) as i128,
            wmul32(m1.m00, m2.m10) as i128 + wmul32(m1.m10, m2.m11) as i128,
            wmul32(m1.m01, m2.m10) as i128 + wmul32(m1.m11, m2.m11) as i128,
            wmul32(m1.den, m2.den) as i128,
        )
    }

    /// Applies `m` to the row vector `v`.
    pub fn trans(m: &Matrix22, v: &Vector2) -> (r: Result<Vector2, MathError>)
        requires
            m.wf(),
            v.wf(),
        ensures
            r matches Ok(u) ==> u.wf() && u@ == m22_trans(m@, v@),
            (r is Ok) == v2_fits(m22_trans(m@, v@)),
            r matches Err(e) ==> e == MathError::NumericOverflow,
    {
        let x: i128 = wmul32(m.m00, v.x) as i128 + wmul32(m.m10, v.y) as i128;
        let y: i128 = wmul32(m.m01, v.x) as i128 + wmul32(m.m11, v.y) as i128;
        let d: i128 = wmul32(m.den, v.den) as i128;
        if 0 < d && d <= 0x7fff_ffff && -0x7fff_ffff <= x && x <= 0x7fff_ffff
            && -0x7fff_ffff <= y && y <= 0x7fff_ffff {
            Ok(Vector2 { x: x as i32, y: y as i32, den: d as i32 })
        } else {
            Err(MathError::NumericOverflow)
        }
    }

    pub fn setIdentity(&mut self)
        ensures
            final(self).wf(),
            final(self)@ == m22_identity(),
    {
        self.m00 = 1;
        self.m01 = 0;
        self.m10 = 0;
        self.m11 = 1;
        self.den = 1;
    }

    pub fn setZero(&mut self)
        ensures
            final(self).wf(),
            final(self)@ == m22_zero(),
    {
        self.m00 = 0;
        self.m01 = 0;
        self.m10 = 0;
        self.m11 = 0;
        self.den = 1;
    }

    pub fn transpose(&mut self)
        requires
            old(self).wf(),
        ensures
            final(self).wf(),
            final(self)@ == m22_transpose(old(self)@),
    {
        let t: i32 = self.m01;
        self.m01 = self.m10;
        self.m10 = t;
    }

    pub fn negate(&mut self)
        requires
            old(self).wf(),
        ensures
            final(self).wf(),
            final(self)@ == m22_neg(old(self)@),
    {
        self.m00 = -self.m00;
        self.m01 = -self.m01;
        self.m10 = -self.m10;
        self.m11 = -self.m11;
    }

    /// The exact determinant; always representable for a 2x2 matrix.
    pub fn det(&self) -> (r: Rat)
        requires
            self.wf(),
        ensures
            r.wf(),
            r@ == m22_det(self@),
    {
        let n: i64 = wmul32(self.m00, self.m11) - wmul32(self.m01, self.m10);
        let d: i64 = wsq32(self.den);
        proof {
            assert(d as int > 0) by (nonlinear_arith)
                requires
                    d as int == self@.d * self@.d,
                    self@.d > 0;
        }
        Rat { num: n, den: d }
    }

    /// Replaces the matrix with its inverse. A singular matrix is left
    /// unchanged and reported as degenerate; an inverse that does not fit
    /// the representation leaves the matrix unchanged as well.
    pub fn invert(&mut self) -> (r: Result<(), MathError>)
        requires
            old(self).wf(),
        ensures
            r is Ok ==> final(self).wf() && final(self)@ == m22_inv(old(self)@),
            (r is Ok) == (m22_det(old(self)@).n != 0 && m22_fits(m22_inv(old(self)@))),
            r is Err ==> *final(self) == *old(self),
            m22_det(old(self)@).n == 0 ==> (r matches Err(e) ==> e == MathError::DegenerateGeometry),
            m22_det(old(self)@).n != 0 ==> (r matches Err(e) ==> e == MathError::NumericOverflow),
    {
        let det: i64 = wmul32(self.m00, self.m11) - wmul32(self.m01, self.m10);
        if det == 0 {
            return Err(MathError::DegenerateGeometry);
        }
        let sg: i64 = if det < 0 { -1 } else { 1 };
        proof {
            assert((-(self@.m01 * self@.d)) * (sg as int) == -self@.m01 * self@.d * (sg as int))
                by (nonlinear_arith);
            assert((-(self@.m10 * self@.d)) * (sg as int) == -self@.m10 * self@.d * (sg as int))
                by (nonlinear_arith);
        }
        let n00: i128 = mul_sign(wmul32(self.m11, self.den) as i128, sg);
        let n01: i128 = mul_sign(-(wmul32(self.m01, self.den)) as i128, sg);
        let n10: i128 = mul_sign(-(wmul32(self.m10, self.den)) as i128, sg);
        let n11: i128 = mul_sign(wmul32(self.m00, self.den) as i128, sg);
        let dd: i128 = mul_sign(det as i128, sg);
        match Matrix22::fit(n00, n01, n10, n11, dd) {
            Ok(m) => {
                *self = m;
                Ok(())
            }
            Err(e) => Err(e),
        }
    }

    fn fit(n00: i128, n01: i128, n10: i128, n11: i128, d: i128) -> (r: Result<Matrix22, MathError>)
        ensures
            r matches Ok(m) ==> m.wf()
                && m@ == (Mat22Model {
                    m00: n00 as int, m01: n01 as int, m10: n10 as int, m11: n11 as int,
                    d: d as int }),
            (r is Ok) == m22_fits(Mat22Model {
                m00: n00 as int, m01: n01 as int, m10: n10 as int, m11: n11 as int, d: d as int }),
            r matches Err(e) ==> e == MathError::NumericOverflow,
    {
        if 0 < d && d <= 0x7fff_ffff
            && -0x7fff_ffff <= n00 && n00 <= 0x7fff_ffff
            && -0x7fff_ffff <= n01 && n01 <= 0x7fff_ffff
            && -0x7fff_ffff <= n10 && n10 <= 0x7fff_ffff
            && -0x7fff_ffff <= n11 && n11 <= 0x7fff_ffff {
            Ok(Matrix22 {
                m00: n00 as i32,
                m01: n01 as i32,
                m10: n10 as i32,
                m11: n11 as i32,
                den: d as i32,
            })
        } else {
            Err(MathError::NumericOverflow)
        }
    }
}

// ------------------------------------------------------------------- laws

/// Multiplying by the identity on either side leaves every entry's value
/// unchanged.
pub proof fn lemma_mul_identity_m22(m: Mat22Model)
    requires
        m22_wf(m),
    ensures
        m22_veq(m22_mul(m, m22_identity()), m),
        m22_veq(m22_mul(m22_identity(), m), m),
{
    assert((m.m00 * 1 + m.m10 * 0) * m.d == m.m00 * (m.d * 1)) by (nonlinear_arith);
    assert((m.m01 * 1 + m.m11 * 0) * m.d == m.m01 * (m.d * 1)) by (nonlinear_arith);
    assert((m.m00 * 0 + m.m10 * 1) * m.d == m.m10 * (m.d * 1)) by (nonlinear_arith);
    assert((m.m01 * 0 + m.m11 * 1) * m.d == m.m11 * (m.d * 1)) by (nonlinear_arith);
    assert((1 * m.m00 + 0 * m.m01) * m.d == m.m00 * (1 * m.d)) by (nonlinear_arith);
    assert((0 * m.m00 + 1 * m.m01) * m.d == m.m01 * (1 * m.d)) by (nonlinear_arith);
    assert((1 * m.m10 + 0 * m.m11) * m.d == m.m10 * (1 * m.d)) by (nonlinear_arith);
    assert((0 * m.m10 + 1 * m.m11) * m.d == m.m11 * (1 * m.d)) by (nonlinear_arith);
}

/// Multiplying two values that both carry the same sign factor cancels it.
proof fn lemma_sign_cancel(x: int, y: int, s: int)
    by (nonlinear_arith)
    requires
        s * s == 1,
    ensures
        (x * s) * (y * s) == x * y,
{
}

/// Inverting twice restores every entry's value, whenever the determinant
/// is non-zero.
pub proof fn lemma_invert_involutive_m22(m: Mat22Model)
    requires
        m22_wf(m),
        m22_det(m).n != 0,
    ensures
        m22_veq(m22_inv(m22_inv(m)), m),
{
    let det: int = m.m00 * m.m11 - m.m01 * m.m10;
    let s: int = if det >= 0 { 1 } else { -1 };
    let i1 = m22_inv(m);
    lemma_sign_cancel(m.m11 * m.d, m.m00 * m.d, s);
    lemma_sign_cancel((-m.m01) * m.d, (-m.m10) * m.d, s);
    assert((m.m11 * m.d) * (m.m00 * m.d) - ((-m.m01) * m.d) * ((-m.m10) * m.d)
        == m.d * m.d * det) by (nonlinear_arith)
        requires
            det == m.m00 * m.m11 - m.m01 * m.m10;
    let det2: int = i1.m00 * i1.m11 - i1.m01 * i1.m10;
    assert(det2 == m.d * m.d * det);
    assert((det2 >= 0) == (det >= 0)) by (nonlinear_arith)
        requires
            det2 == m.d * m.d * det,
            m.d > 0;
    let i2 = m22_inv(i1);

    // Entry (0,0): i2.m00 == ((m.m00 * m.d) * det) * s, i2.d == det2 * s.
    lemma_sign_cancel(m.m00 * m.d, det, s);
    assert(i2.m00 == ((m.m00 * m.d) * det) * s);
    assert((((m.m00 * m.d) * det) * s) * m.d == m.m00 * ((m.d * m.d * det) * s))
        by (nonlinear_arith);
    assert(i2.m00 * m.d == m.m00 * i2.d);

    // Entry (0,1): -i1.m01 carries the sign of m.m01 back.
    assert(-((((-m.m01) * m.d) * s)) == (m.m01 * m.d) * s) by (nonlinear_arith);
    lemma_sign_cancel(m.m01 * m.d, det, s);
    assert(i2.m01 == ((m.m01 * m.d) * det) * s);
    assert((((m.m01 * m.d) * det) * s) * m.d == m.m01 * ((m.d * m.d * det) * s))
        by (nonlinear_arith);
    assert(i2.m01 * m.d == m.m01 * i2.d);

    // Entry (1,0): symmetric.
    assert(-((((-m.m10) * m.d) * s)) == (m.m10 * m.d) * s) by (nonlinear_arith);
    lemma_sign_cancel(m.m10 * m.d, det, s);
    assert(i2.m10 == ((m.m10 * m.d) * det) * s);
    assert((((m.m10 * m.d) * det) * s) * m.d == m.m10 * ((m.d * m.d * det) * s))
        by (nonlinear_arith);
    assert(i2.m10 * m.d == m.m10 * i2.d);

    // Entry (1,1): symmetric to (0,0).
    lemma_sign_cancel(m.m11 * m.d, det, s);
    assert(i2.m11 == ((m.m11 * m.d) * det) * s);
    assert((((m.m11 * m.d) * det) * s) * m.d == m.m11 * ((m.d * m.d * det) * s))
        by (nonlinear_arith);
    assert(i2.m11 * m.d == m.m11 * i2.d);
}

} // verus!
