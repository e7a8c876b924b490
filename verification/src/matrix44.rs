//! Exact 4x4 matrices in homogeneous coordinates: integer entries over one
//! positive denominator. Beyond the shared arithmetic this type carries the
//! composable scene transforms: `scale`, `rotate` and `translate` each
//! compose into the current matrix, so call order is significant. The
//! translation lives in the last row, matching the row-vector transform
//! convention of the companion types.

#![allow(non_snake_case)]

use vstd::prelude::*;
use crate::rat::{
    Rat, Ratio, MathError, ratio_eq, ratio_fits, ratio_neg, rat_small, mul_sign,
    lemma_mul_bound, wmul32, wsq32, wmul64,
};
use crate::vectors::{Vector3, Vec3Model, Vector4, Vec4Model, v4_fits, in_i32};

verus! {

/// Mathematical model: integer entries over one positive denominator.
pub ghost struct Mat44Model {
    pub m00: int, pub m01: int, pub m02: int, pub m03: int,
    pub m10: int, pub m11: int, pub m12: int, pub m13: int,
    pub m20: int, pub m21: int, pub m22: int, pub m23: int,
    pub m30: int, pub m31: int, pub m32: int, pub m33: int,
    pub d: int,
}

pub open spec fn m44_wf(m: Mat44Model) -> bool {
    0 < m.d <= 0x7fff_ffff
        && in_i32(m.m00) && in_i32(m.m01) && in_i32(m.m02) && in_i32(m.m03)
        && in_i32(m.m10) && in_i32(m.m11) && in_i32(m.m12) && in_i32(m.m13)
        && in_i32(m.m20) && in_i32(m.m21) && in_i32(m.m22) && in_i32(m.m23)
        && in_i32(m.m30) && in_i32(m.m31) && in_i32(m.m32) && in_i32(m.m33)
}

pub open spec fn m44_fits(m: Mat44Model) -> bool {
    m44_wf(m)
}

/// Entries and denominator small enough that determinant and inverse are
/// computed without any internal overflow.
pub open spec fn m44_small(m: Mat44Model) -> bool {
    0 < m.d <= 1000000
        && -1000000 <= m.m00 <= 1000000 && -1000000 <= m.m01 <= 1000000
        && -1000000 <= m.m02 <= 1000000 && -1000000 <= m.m03 <= 1000000
        && -1000000 <= m.m10 <= 1000000 && -1000000 <= m.m11 <= 1000000
        && -1000000 <= m.m12 <= 1000000 && -1000000 <= m.m13 <= 1000000
        && -1000000 <= m.m20 <= 1000000 && -1000000 <= m.m21 <= 1000000
        && -1000000 <= m.m22 <= 1000000 && -1000000 <= m.m23 <= 1000000
        && -1000000 <= m.m30 <= 1000000 && -1000000 <= m.m31 <= 1000000
        && -1000000 <= m.m32 <= 1000000 && -1000000 <= m.m33 <= 1000000
}

/// Entrywise value equality.
pub open spec fn m44_veq(a: Mat44Model, b: Mat44Model) -> bool {
    ratio_eq(Ratio { n: a.m00, d: a.d }, Ratio { n: b.m00, d: b.d })
        && ratio_eq(Ratio { n: a.m01, d: a.d }, Ratio { n: b.m01, d: b.d })
        && ratio_eq(Ratio { n: a.m02, d: a.d }, Ratio { n: b.m02, d: b.d })
        && ratio_eq(Ratio { n: a.m03, d: a.d }, Ratio { n: b.m03, d: b.d })
        && ratio_eq(Ratio { n: a.m10, d: a.d }, Ratio { n: b.m10, d: b.d })
        && ratio_eq(Ratio { n: a.m11, d: a.d }, Ratio { n: b.m11, d: b.d })
        && ratio_eq(Ratio { n: a.m12, d: a.d }, Ratio { n: b.m12, d: b.d })
        && ratio_eq(Ratio { n: a.m13, d: a.d }, Ratio { n: b.m13, d: b.d })
        && ratio_eq(Ratio { n: a.m20, d: a.d }, Ratio { n: b.m20, d: b.d })
        && ratio_eq(Ratio { n: a.m21, d: a.d }, Ratio { n: b.m21, d: b.d })
        && ratio_eq(Ratio { n: a.m22, d: a.d }, Ratio { n: b.m22, d: b.d })
        && ratio_eq(Ratio { n: a.m23, d: a.d }, Ratio { n: b.m23, d: b.d })
        && ratio_eq(Ratio { n: a.m30, d: a.d }, Ratio { n: b.m30, d: b.d })
        && ratio_eq(Ratio { n: a.m31, d: a.d }, Ratio { n: b.m31, d: b.d })
        && ratio_eq(Ratio { n: a.m32, d: a.d }, Ratio { n: b.m32, d: b.d })
        && ratio_eq(Ratio { n: a.m33, d: a.d }, Ratio { n: b.m33, d: b.d })
}

pub open spec fn m44_identity() -> Mat44Model {
    Mat44Model {
        m00: 1, m01: 0, m02: 0, m03: 0,
        m10: 0, m11: 1, m12: 0, m13: 0,
        m20: 0, m21: 0, m22: 1, m23: 0,
        m30: 0, m31: 0, m32: 0, m33: 1,
        d: 1,
    }
}

pub open spec fn m44_zero() -> Mat44Model {
    Mat44Model {
        m00: 0, m01: 0, m02: 0, m03: 0,
        m10: 0, m11: 0, m12: 0, m13: 0,
        m20: 0, m21: 0, m22: 0, m23: 0,
        m30: 0, m31: 0, m32: 0, m33: 0,
        d: 1,
    }
}

pub open spec fn m44_add(a: Mat44Model, b: Mat44Model) -> Mat44Model {
    Mat44Model {
        m00: a.m00 * b.d + b.m00 * a.d, m01: a.m01 * b.d + b.m01 * a.d,
        m02: a.m02 * b.d + b.m02 * a.d, m03: a.m03 * b.d + b.m03 * a.d,
        m10: a.m10 * b.d + b.m10 * a.d, m11: a.m11 * b.d + b.m11 * a.d,
        m12: a.m12 * b.d + b.m12 * a.d, m13: a.m13 * b.d + b.m13 * a.d,
        m20: a.m20 * b.d + b.m20 * a.d, m21: a.m21 * b.d + b.m21 * a.d,
        m22: a.m22 * b.d + b.m22 * a.d, m23: a.m23 * b.d + b.m23 * a.d,
        m30: a.m30 * b.d + b.m30 * a.d, m31: a.m31 * b.d + b.m31 * a.d,
        m32: a.m32 * b.d + b.m32 * a.d, m33: a.m33 * b.d + b.m33 * a.d,
        d: a.d * b.d,
    }
}

pub open spec fn m44_sub(a: Mat44Model, b: Mat44Model) -> Mat44Model {
    Mat44Model {
        m00: a.m00 * b.d - b.m00 * a.d, m01: a.m01 * b.d - b.m01 * a.d,
        m02: a.m02 * b.d - b.m02 * a.d, m03: a.m03 * b.d - b.m03 * a.d,
        m10: a.m10 * b.d - b.m10 * a.d, m11: a.m11 * b.d - b.m11 * a.d,
        m12: a.m12 * b.d - b.m12 * a.d, m13: a.m13 * b.d - b.m13 * a.d,
        m20: a.m20 * b.d - b.m20 * a.d, m21: a.m21 * b.d - b.m21 * a.d,
        m22: a.m22 * b.d - b.m22 * a.d, m23: a.m23 * b.d - b.m23 * a.d,
        m30: a.m30 * b.d - b.m30 * a.d, m31: a.m31 * b.d - b.m31 * a.d,
        m32: a.m32 * b.d - b.m32 * a.d, m33: a.m33 * b.d - b.m33 * a.d,
        d: a.d * b.d,
    }
}

/// Composition: transforming by `m44_mul(m1, m2)` is transforming by `m2`
/// first, then by `m1`.
pub open spec fn m44_mul(m1: Mat44Model, m2: Mat44Model) -> Mat44Model {
    Mat44Model {
        m00: m1.m00 * m2.m00 + m1.m10 * m2.m01 + m1.m20 * m2.m02 + m1.m30 * m2.m03,
        m01: m1.m01 * m2.m00 + m1.m11 * m2.m01 + m1.m21 * m2.m02 + m1.m31 * m2.m03,
        m02: m1.m02 * m2.m00 + m1.m12 * m2.m01 + m1.m22 * m2.m02 + m1.m32 * m2.m03,
        m03: m1.m03 * m2.m00 + m1.m13 * m2.m01 + m1.m23 * m2.m02 + m1.m33 * m2.m03,
        m10: m1.m00 * m2.m10 + m1.m10 * m2.m11 + m1.m20 * m2.m12 + m1.m30 * m2.m13,
        m11: m1.m01 * m2.m10 + m1.m11 * m2.m11 + m1.m21 * m2.m12 + m1.m31 * m2.m13,
        m12: m1.m02 * m2.m10 + m1.m12 * m2.m11 + m1.m22 * m2.m12 + m1.m32 * m2.m13,
        m13: m1.m03 * m2.m10 + m1.m13 * m2.m11 + m1.m23 * m2.m12 + m1.m33 * m2.m13,
        m20: m1.m00 * m2.m20 + m1.m10 * m2.m21 + m1.m20 * m2.m22 + m1.m30 * m2.m23,
        m21: m1.m01 * m2.m20 + m1.m11 * m2.m21 + m1.m21 * m2.m22 + m1.m31 * m2.m23,
        m22: m1.m02 * m2.m20 + m1.m12 * m2.m21 + m1.m22 * m2.m22 + m1.m32 * m2.m23,
        m23: m1.m03 * m2.m20 + m1.m13 * m2.m21 + m1.m23 * m2.m22 + m1.m33 * m2.m23,
        m30: m1.m00 * m2.m30 + m1.m10 * m2.m31 + m1.m20 * m2.m32 + m1.m30 * m2.m33,
        m31: m1.m01 * m2.m30 + m1.m11 * m2.m31 + m1.m21 * m2.m32 + m1.m31 * m2.m33,
        m32: m1.m02 * m2.m30 + m1.m12 * m2.m31 + m1.m22 * m2.m32 + m1.m32 * m2.m33,
        m33: m1.m03 * m2.m30 + m1.m13 * m2.m31 + m1.m23 * m2.m32 + m1.m33 * m2.m33,
        d: m1.d * m2.d,
    }
}

/// Row-vector transform in homogeneous coordinates.
pub open spec fn m44_trans(m: Mat44Model, v: Vec4Model) -> Vec4Model {
    Vec4Model {
        x: m.m00 * v.x + m.m10 * v.y + m.m20 * v.z + m.m30 * v.w,
        y: m.m01 * v.x + m.m11 * v.y + m.m21 * v.z + m.m31 * v.w,
        z: m.m02 * v.x + m.m12 * v.y + m.m22 * v.z + m.m32 * v.w,
        w: m.m03 * v.x + m.m13 * v.y + m.m23 * v.z + m.m33 * v.w,
        d: m.d * v.d,
    }
}

pub open spec fn m44_transpose(m: Mat44Model) -> Mat44Model {
    Mat44Model {
        m00: m.m00, m01: m.m10, m02: m.m20, m03: m.m30,
        m10: m.m01, m11: m.m11, m12: m.m21, m13: m.m31,
        m20: m.m02, m21: m.m12, m22: m.m22, m23: m.m32,
        m30: m.m03, m31: m.m13, m32: m.m23, m33: m.m33,
        d: m.d,
    }
}

pub open spec fn m44_neg(m: Mat44Model) -> Mat44Model {
    Mat44Model {
        m00: -m.m00, m01: -m.m01, m02: -m.m02, m03: -m.m03,
        m10: -m.m10, m11: -m.m11, m12: -m.m12, m13: -m.m13,
        m20: -m.m20, m21: -m.m21, m22: -m.m22, m23: -m.m23,
        m30: -m.m30, m31: -m.m31, m32: -m.m32, m33: -m.m33,
        d: m.d,
    }
}

/// A 3x3 determinant of plain integers, expanded along the first row.
pub open spec fn det3(
    a: int, b: int, c: int, p: int, q: int, r: int, x: int, y: int, z: int,
) -> int {
    a * (q * z - r * y) + b * (r * x - p * z) + c * (p * y - q * x)
}

/// The determinant's numerator; the value is this over `d^4`.
pub open spec fn m44_det_num(m: Mat44Model) -> int {
    m.m00 * det3(m.m11, m.m12, m.m13, m.m21, m.m22, m.m23, m.m31, m.m32, m.m33)
        - m.m01 * det3(m.m10, m.m12, m.m13, m.m20, m.m22, m.m23, m.m30, m.m32, m.m33)
        + m.m02 * det3(m.m10, m.m11, m.m13, m.m20, m.m21, m.m23, m.m30, m.m31, m.m33)
        - m.m03 * det3(m.m10, m.m11, m.m12, m.m20, m.m21, m.m22, m.m30, m.m31, m.m32)
}

pub open spec fn m44_det(m: Mat44Model) -> Ratio {
    Ratio { n: m44_det_num(m), d: m.d * m.d * m.d * m.d }
}

/// The exact inverse: the transposed cofactors, each scaled by the
/// denominator, over the determinant, with the determinant's sign moved
/// into the entries. Meaningful only when the determinant is non-zero.
pub open spec fn m44_inv(m: Mat44Model) -> Mat44Model {
    let det = m44_det_num(m);
    let s: int = if det >= 0 { 1 } else { -1 };
    Mat44Model {
        m00: det3(m.m11, m.m12, m.m13, m.m21, m.m22, m.m23, m.m31, m.m32, m.m33) * m.d * s,
        m01: -det3(m.m01, m.m02, m.m03, m.m21, m.m22, m.m23, m.m31, m.m32, m.m33) * m.d * s,
        m02: det3(m.m01, m.m02, m.m03, m.m11, m.m12, m.m13, m.m31, m.m32, m.m33) * m.d * s,
        m03: -det3(m.m01, m.m02, m.m03, m.m11, m.m12, m.m13, m.m21, m.m22, m.m23) * m.d * s,
        m10: -det3(m.m10, m.m12, m.m13, m.m20, m.m22, m.m23, m.m30, m.m32, m.m33) * m.d * s,
        m11: det3(m.m00, m.m02, m.m03, m.m20, m.m22, m.m23, m.m30, m.m32, m.m33) * m.d * s,
        m12: -det3(m.m00, m.m02, m.m03, m.m10, m.m12, m.m13, m.m30, m.m32, m.m33) * m.d * s,
        m13: det3(m.m00, m.m02, m.m03, m.m10, m.m12, m.m13, m.m20, m.m22, m.m23) * m.d * s,
        m20: det3(m.m10, m.m11, m.m13, m.m20, m.m21, m.m23, m.m30, m.m31, m.m33) * m.d * s,
        m21: -det3(m.m00, m.m01, m.m03, m.m20, m.m21, m.m23, m.m30, m.m31, m.m33) * m.d * s,
        m22: det3(m.m00, m.m01, m.m03, m.m10, m.m11, m.m13, m.m30, m.m31, m.m33) * m.d * s,
        m23: -det3(m.m00, m.m01, m.m03, m.m10, m.m11, m.m13, m.m20, m.m21, m.m23) * m.d * s,
        m30: -det3(m.m10, m.m11, m.m12, m.m20, m.m21, m.m22, m.m30, m.m31, m.m32) * m.d * s,
        m31: det3(m.m00, m.m01, m.m02, m.m20, m.m21, m.m22, m.m30, m.m31, m.m32) * m.d * s,
        m32: -det3(m.m00, m.m01, m.m02, m.m10, m.m11, m.m12, m.m30, m.m31, m.m32) * m.d * s,
        m33: det3(m.m00, m.m01, m.m02, m.m10, m.m11, m.m12, m.m20, m.m21, m.m22) * m.d * s,
        d: det * s,
    }
}

/// Scaling: the three linear rows are scaled by the matching axis factor;
/// the translation row keeps its value.
pub open spec fn m44_scale(m: Mat44Model, v: Vec3Model) -> Mat44Model {
    Mat44Model {
        m00: m.m00 * v.x, m01: m.m01 * v.x, m02: m.m02 * v.x, m03: m.m03 * v.x,
        m10: m.m10 * v.y, m11: m.m11 * v.y, m12: m.m12 * v.y, m13: m.m13 * v.y,
        m20: m.m20 * v.z, m21: m.m21 * v.z, m22: m.m22 * v.z, m23: m.m23 * v.z,
        m30: m.m30 * v.d, m31: m.m31 * v.d, m32: m.m32 * v.d, m33: m.m33 * v.d,
        d: m.d * v.d,
    }
}

/// Translation: `v`, transformed through the current linear block, is added
/// into the last row; the other rows keep their values.
pub open spec fn m44_translate(m: Mat44Model, v: Vec3Model) -> Mat44Model {
    Mat44Model {
        m00: m.m00 * v.d, m01: m.m01 * v.d, m02: m.m02 * v.d, m03: m.m03 * v.d,
        m10: m.m10 * v.d, m11: m.m11 * v.d, m12: m.m12 * v.d, m13: m.m13 * v.d,
        m20: m.m20 * v.d, m21: m.m21 * v.d, m22: m.m22 * v.d, m23: m.m23 * v.d,
        m30: m.m30 * v.d + m.m00 * v.x + m.m10 * v.y + m.m20 * v.z,
        m31: m.m31 * v.d + m.m01 * v.x + m.m11 * v.y + m.m21 * v.z,
        m32: m.m32 * v.d + m.m02 * v.x + m.m12 * v.y + m.m22 * v.z,
        m33: m.m33 * v.d + m.m03 * v.x + m.m13 * v.y + m.m23 * v.z,
        d: m.d * v.d,
    }
}

/// The Rodrigues rotation block for the axis `a` and an angle given by its
/// cosine `c` and sine `s`, embedded in a homogeneous 4x4 matrix. Exact for
/// any rational inputs; a rotation proper when the axis has length one and
/// `c^2 + s^2 == 1`.
pub open spec fn m44_rodrigues(a: Vec3Model, c: Ratio, s: Ratio) -> Mat44Model {
    Mat44Model {
        m00: (a.x * a.x * (c.d - c.n) + c.n * (a.d * a.d)) * s.d,
        m01: a.x * a.y * (c.d - c.n) * s.d + a.z * s.n * a.d * c.d,
        m02: a.x * a.z * (c.d - c.n) * s.d - a.y * s.n * a.d * c.d,
        m03: 0,
        m10: a.x * a.y * (c.d - c.n) * s.d - a.z * s.n * a.d * c.d,
        m11: (a.y * a.y * (c.d - c.n) + c.n * (a.d * a.d)) * s.d,
        m12: a.y * a.z * (c.d - c.n) * s.d + a.x * s.n * a.d * c.d,
        m13: 0,
        m20: a.x * a.z * (c.d - c.n) * s.d + a.y * s.n * a.d * c.d,
        m21: a.y * a.z * (c.d - c.n) * s.d - a.x * s.n * a.d * c.d,
        m22: (a.z * a.z * (c.d - c.n) + c.n * (a.d * a.d)) * s.d,
        m23: 0,
        m30: 0,
        m31: 0,
        m32: 0,
        m33: a.d * a.d * c.d * s.d,
        d: a.d * a.d * c.d * s.d,
    }
}

/// An exact 4x4 matrix.
#[derive(Clone, Copy, Debug, PartialEq, Eq, Structural)]
pub struct Matrix44 {
    pub m00: i32, pub m01: i32, pub m02: i32, pub m03: i32,
    pub m10: i32, pub m11: i32, pub m12: i32, pub m13: i32,
    pub m20: i32, pub m21: i32, pub m22: i32, pub m23: i32,
    pub m30: i32, pub m31: i32, pub m32: i32, pub m33: i32,
    pub den: i32,
}

impl View for Matrix44 {
    type V = Mat44Model;

    open spec fn view(&self) -> Mat44Model {
        Mat44Model {
            m00: self.m00 as int, m01: self.m01 as int, m02: self.m02 as int, m03: self.m03 as int,
            m10: self.m10 as int, m11: self.m11 as int, m12: self.m12 as int, m13: self.m13 as int,
            m20: self.m20 as int, m21: self.m21 as int, m22: self.m22 as int, m23: self.m23 as int,
            m30: self.m30 as int, m31: self.m31 as int, m32: self.m32 as int, m33: self.m33 as int,
            d: self.den as int,
        }
    }
}

impl Default for Matrix44 {
    /// The identity matrix.
    fn default() -> (r: Matrix44)
        ensures
            r.wf(),
            r@ == m44_identity(),
    {
        Matrix44 {
            m00: 1, m01: 0, m02: 0, m03: 0,
            m10: 0, m11: 1, m12: 0, m13: 0,
            m20: 0, m21: 0, m22: 1, m23: 0,
            m30: 0, m31: 0, m32: 0, m33: 1,
            den: 1,
        }
    }
}

impl Matrix44 {
    pub open spec fn wf(&self) -> bool {
        m44_wf(self@)
    }

    pub fn add(m1: &Matrix44, m2: &Matrix44) -> (r: Result<Matrix44, MathError>)
        requires
            m1.wf(),
            m2.wf(),
        ensures
            r matches Ok(m) ==> m.wf() && m@ == m44_add(m1@, m2@),
            (r is Ok) == m44_fits(m44_add(m1@, m2@)),
            r matches Err(e) ==> e == MathError::NumericOverflow,
    {
        Matrix44::fit(
            wmul32(m1.m00, m2.den) as i128 + wmul32(m2.m00, m1.den) as i128,
            wmul32(m1.m01, m2.den) as i128 + wmul32(m2.m01, m1.den) as i128,
            wmul32(m1.m02, m2.den) as i128 + wmul32(m2.m02, m1.den) as i128,
            wmul32(m1.m03, m2.den) as i128 + wmul32(m2.m03, m1.den) as i128,
            wmul32(m1.m10, m2.den) as i128 + wmul32(m2.m10, m1.den) as i128,
            wmul32(m1.m11, m2.den) as i128 + wmul32(m2.m11, m1.den) as i128,
            wmul32(m1.m12, m2.den) as i128 + wmul32(m2.m12, m1.den) as i128,
            wmul32(m1.m13, m2.den) as i128 + wmul32(m2.m13, m1.den) as i128,
            wmul32(m1.m20, m2.den) as i128 + wmul32(m2.m20, m1.den) as i128,
            wmul32(m1.m21, m2.den) as i128 + wmul32(m2.m21, m1.den) as i128,
            wmul32(m1.m22, m2.den) as i128 + wmul32(m2.m22, m1.den) as i128,
            wmul32(m1.m23, m2.den) as i128 + wmul32(m2.m23, m1.den) as i128,
            wmul32(m1.m30, m2.den) as i128 + wmul32(m2.m30, m1.den) as i128,
            wmul32(m1.m31, m2.den) as i128 + wmul32(m2.m31, m1.den) as i128,
            wmul32(m1.m32, m2.den) as i128 + wmul32(m2.m32, m1.den) as i128,
            wmul32(m1.m33, m2.den) as i128 + wmul32(m2.m33, m1.den) as i128,
            wmul32(m1.den, m2.den) as i128,
        )
    }

    pub fn sub(m1: &Matrix44, m2: &Matrix44) -> (r: Result<Matrix44, MathError>)
        requires
            m1.wf(),
            m2.wf(),
        ensures
            r matches Ok(m) ==> m.wf() && m@ == m44_sub(m1@, m2@),
            (r is Ok) == m44_fits(m44_sub(m1@, m2@)),
            r matches Err(e) ==> e == MathError::NumericOverflow,
    {
        Matrix44::fit(
            wmul32(m1.m00, m2.den) as i128 - wmul32(m2.m00, m1.den) as i128,
            wmul32(m1.m01, m2.den) as i128 - wmul32(m2.m01, m1.den) as i128,
            wmul32(m1.m02, m2.den) as i128 - wmul32(m2.m02, m1.den) as i128,
            wmul32(m1.m03, m2.den) as i128 - wmul32(m2.m03, m1.den) as i128,
            wmul32(m1.m10, m2.den) as i128 - wmul32(m2.m10, m1.den) as i128,
            wmul32(m1.m11, m2.den) as i128 - wmul32(m2.m11, m1.den) as i128,
            wmul32(m1.m12, m2.den) as i128 - wmul32(m2.m12, m1.den) as i128,
            wmul32(m1.m13, m2.den) as i128 - wmul32(m2.m13, m1.den) as i128,
            wmul32(m1.m20, m2.den) as i128 - wmul32(m2.m20, m1.den) as i128,
            wmul32(m1.m21, m2.den) as i128 - wmul32(m2.m21, m1.den) as i128,
            wmul32(m1.m22, m2.den) as i128 - wmul32(m2.m22, m1.den) as i128,
            wmul32(m1.m23, m2.den) as i128 - wmul32(m2.m23, m1.den) as i128,
            wmul32(m1.m30, m2.den) as i128 - wmul32(m2.m30, m1.den) as i128,
            wmul32(m1.m31, m2.den) as i128 - wmul32(m2.m31, m1.den) as i128,
            wmul32(m1.m32, m2.den) as i128 - wmul32(m2.m32, m1.den) as i128,
            wmul32(m1.m33, m2.den) as i128 - wmul32(m2.m33, m1.den) as i128,
            wmul32(m1.den, m2.den) as i128,
        )
    }

    pub fn mul(m1: &Matrix44, m2: &Matrix44) -> (r: Result<Matrix44, MathError>)
        requires
            m1.wf(),
            m2.wf(),
        ensures
            r matches Ok(m) ==> m.wf() && m@ == m44_mul(m1@, m2@),
            (r is Ok) == m44_fits(m44_mul(m1@, m2@)),
            r matches Err(e) ==> e == MathError::NumericOverflow,
    {
        Matrix44::fit(
            wmul32(m1.m00, m2.m00) as i128 + wmul32(m1.m10, m2.m01) as i128
                + wmul32(m1.m20, m2.m02) as i128 + wmul32(m1.m30, m2.m03) as i128,
            wmul32(m1.m01, m2.m00) as i128 + wmul32(m1.m11, m2.m01) as i128
                + wmul32(m1.m21, m2.m02) as i128 + wmul32(m1.m31, m2.m03) as i128,
            wmul32(m1.m02, m2.m00) as i128 + wmul32(m1.m12, m2.m01) as i128
                + wmul32(m1.m22, m2.m02) as i128 + wmul32(m1.m32, m2.m03) as i128,
            wmul32(m1.m03, m2.m00) as i128 + wmul32(m1.m13, m2.m01) as i128
                + wmul32(m1.m23, m2.m02) as i128 + wmul32(m1.m33, m2.m03) as i128,
            wmul32(m1.m00, m2.m10) as i128 + wmul32(m1.m10, m2.m11) as i128
                + wmul32(m1.m20, m2.m12) as i128 + wmul32(m1.m30, m2.m13) as i128,
            wmul32(m1.m01, m2.m10) as i128 + wmul32(m1.m11, m2.m11) as i128
                + wmul32(m1.m21, m2.m12) as i128 + wmul32(m1.m31, m2.m13) as i128,
            wmul32(m1.m02, m2.m10) as i128 + wmul32(m1.m12, m2.m11) as i128
                + wmul32(m1.m22, m2.m12) as i128 + wmul32(m1.m32, m2.m13) as i128,
            wmul32(m1.m03, m2.m10) as i128 + wmul32(m1.m13, m2.m11) as i128
                + wmul32(m1.m23, m2.m12) as i128 + wmul32(m1.m33, m2.m13) as i128,
            wmul32(m1.m00, m2.m20) as i128 + wmul32(m1.m10, m2.m21) as i128
                + wmul32(m1.m20, m2.m22) as i128 + wmul32(m1.m30, m2.m23) as i128,
            wmul32(m1.m01, m2.m20) as i128 + wmul32(m1.m11, m2.m21) as i128
                + wmul32(m1.m21, m2.m22) as i128 + wmul32(m1.m31, m2.m23) as i128,
            wmul32(m1.m02, m2.m20) as i128 + wmul32(m1.m12, m2.m21) as i128
                + wmul32(m1.m22, m2.m22) as i128 + wmul32(m1.m32, m2.m23) as i128,
            wmul32(m1.m03, m2.m20) as i128 + wmul32(m1.m13, m2.m21) as i128
                + wmul32(m1.m23, m2.m22) as i128 + wmul32(m1.m33, m2.m23) as i128,
            wmul32(m1.m00, m2.m30) as i128 + wmul32(m1.m10, m2.m31) as i128
                + wmul32(m1.m20, m2.m32) as i128 + wmul32(m1.m30, m2.m33) as i128,
            wmul32(m1.m01, m2.m30) as i128 + wmul32(m1.m11, m2.m31) as i128
                + wmul32(m1.m21, m2.m32) as i128 + wmul32(m1.m31, m2.m33) as i128,
            wmul32(m1.m02, m2.m30) as i128 + wmul32(m1.m12, m2.m31) as i128
                + wmul32(m1.m22, m2.m32) as i128 + wmul32(m1.m32, m2.m33) as i128,
            wmul32(m1.m03, m2.m30) as i128 + wmul32(m1.m13, m2.m31) as i128
                + wmul32(m1.m23, m2.m32) as i128 + wmul32(m1.m33, m2.m33) as i128,
            wmul32(m1.den, m2.den) as i128,
        )
    }

    /// Applies `m` to the homogeneous row vector `v`.
    pub fn trans(m: &Matrix44, v: &Vector4) -> (r: Result<Vector4, MathError>)
        requires
            m.wf(),
            v.wf(),
        ensures
            r matches Ok(u) ==> u.wf() && u@ == m44_trans(m@, v@),
            (r is Ok) == v4_fits(m44_trans(m@, v@)),
            r matches Err(e) ==> e == MathError::NumericOverflow,
    {
        let x: i128 = wmul32(m.m00, v.x) as i128 + wmul32(m.m10, v.y) as i128
            + wmul32(m.m20, v.z) as i128 + wmul32(m.m30, v.w) as i128;
        let y: i128 = wmul32(m.m01, v.x) as i128 + wmul32(m.m11, v.y) as i128
            + wmul32(m.m21, v.z) as i128 + wmul32(m.m31, v.w) as i128;
        let z: i128 = wmul32(m.m02, v.x) as i128 + wmul32(m.m12, v.y) as i128
            + wmul32(m.m22, v.z) as i128 + wmul32(m.m32, v.w) as i128;
        let w: i128 = wmul32(m.m03, v.x) as i128 + wmul32(m.m13, v.y) as i128
            + wmul32(m.m23, v.z) as i128 + wmul32(m.m33, v.w) as i128;
        let d: i128 = wmul32(m.den, v.den) as i128;
        if 0 < d && d <= 0x7fff_ffff && -0x7fff_ffff <= x && x <= 0x7fff_ffff
            && -0x7fff_ffff <= y && y <= 0x7fff_ffff && -0x7fff_ffff <= z && z <= 0x7fff_ffff
            && -0x7fff_ffff <= w && w <= 0x7fff_ffff {
            Ok(Vector4 { x: x as i32, y: y as i32, z: z as i32, w: w as i32, den: d as i32 })
        } else {
            Err(MathError::NumericOverflow)
        }
    }

    pub fn setIdentity(&mut self)
        ensures
            final(self).wf(),
            final(self)@ == m44_identity(),
    {
        self.m00 = 1; self.m01 = 0; self.m02 = 0; self.m03 = 0;
        self.m10 = 0; self.m11 = 1; self.m12 = 0; self.m13 = 0;
        self.m20 = 0; self.m21 = 0; self.m22 = 1; self.m23 = 0;
        self.m30 = 0; self.m31 = 0; self.m32 = 0; self.m33 = 1;
        self.den = 1;
    }

    pub fn setZero(&mut self)
        ensures
            final(self).wf(),
            final(self)@ == m44_zero(),
    {
        self.m00 = 0; self.m01 = 0; self.m02 = 0; self.m03 = 0;
        self.m10 = 0; self.m11 = 0; self.m12 = 0; self.m13 = 0;
        self.m20 = 0; self.m21 = 0; self.m22 = 0; self.m23 = 0;
        self.m30 = 0; self.m31 = 0; self.m32 = 0; self.m33 = 0;
        self.den = 1;
    }

    pub fn transpose(&mut self)
        requires
            old(self).wf(),
        ensures
            final(self).wf(),
            final(self)@ == m44_transpose(old(self)@),
    {
        let m01: i32 = self.m10;
        let m02: i32 = self.m20;
        let m03: i32 = self.m30;
        let m10: i32 = self.m01;
        let m12: i32 = self.m21;
        let m13: i32 = self.m31;
        let m20: i32 = self.m02;
        let m21: i32 = self.m12;
        let m23: i32 = self.m32;
        let m30: i32 = self.m03;
        let m31: i32 = self.m13;
        let m32: i32 = self.m23;
        self.m01 = m01;
        self.m02 = m02;
        self.m03 = m03;
        self.m10 = m10;
        self.m12 = m12;
        self.m13 = m13;
        self.m20 = m20;
        self.m21 = m21;
        self.m23 = m23;
        self.m30 = m30;
        self.m31 = m31;
        self.m32 = m32;
    }

    pub fn negate(&mut self)
        requires
            old(self).wf(),
        ensures
            final(self).wf(),
            final(self)@ == m44_neg(old(self)@),
    {
        self.m00 = -self.m00; self.m01 = -self.m01; self.m02 = -self.m02; self.m03 = -self.m03;
        self.m10 = -self.m10; self.m11 = -self.m11; self.m12 = -self.m12; self.m13 = -self.m13;
        self.m20 = -self.m20; self.m21 = -self.m21; self.m22 = -self.m22; self.m23 = -self.m23;
        self.m30 = -self.m30; self.m31 = -self.m31; self.m32 = -self.m32; self.m33 = -self.m33;
    }

    /// The exact determinant. Guaranteed to be produced for matrices within
    /// the `m44_small` bound whose determinant value is representable; a
    /// matrix with larger entries may exceed the internal precision and is
    /// then reported as an overflow.
    pub fn det(&self) -> (r: Result<Rat, MathError>)
        requires
            self.wf(),
        ensures
            r matches Ok(q) ==> q.wf() && q@ == m44_det(self@),
            m44_small(self@) && ratio_fits(m44_det(self@)) ==> r is Ok,
            r matches Err(e) ==> e == MathError::NumericOverflow,
    {
        match self.det_num() {
            Some(n) => {
                let d2: i64 = wsq32(self.den);
                let d4: i128 = wmul64(d2, d2);
                proof {
                    assert(d4 as int == self@.d * self@.d * self@.d * self@.d)
                        by (nonlinear_arith)
                        requires
                            d4 as int == (d2 as int) * (d2 as int),
                            d2 as int == self@.d * self@.d;
                }
                Rat::fit(n, d4)
            }
            None => Err(MathError::NumericOverflow),
        }
    }

    /// The determinant's numerator, exactly, when the cofactor expansion
    /// stays within the wide intermediates; always within them for
    /// `m44_small` matrices.
    fn det_num(&self) -> (r: Option<i128>)
        requires
            self.wf(),
        ensures
            r matches Some(n) ==> n as int == m44_det_num(self@)
                && -0x4_0000_0000_0000_0000_0000_0000_0000 <= n as int
                    <= 0x4_0000_0000_0000_0000_0000_0000_0000,
            m44_small(self@) ==> r is Some,
    {
        let c0: i128 = Matrix44::det3_vals(
            self.m11, self.m12, self.m13, self.m21, self.m22, self.m23, self.m31, self.m32, self.m33);
        let c1: i128 = Matrix44::det3_vals(
            self.m10, self.m12, self.m13, self.m20, self.m22, self.m23, self.m30, self.m32, self.m33);
        let c2: i128 = Matrix44::det3_vals(
            self.m10, self.m11, self.m13, self.m20, self.m21, self.m23, self.m30, self.m31, self.m33);
        let c3: i128 = Matrix44::det3_vals(
            self.m10, self.m11, self.m12, self.m20, self.m21, self.m22, self.m30, self.m31, self.m32);
        proof {
            lemma_mul_bound(self@.m00, c0 as int, 0x8000_0000, 59421121885698253195157962752);
            lemma_mul_bound(self@.m01, c1 as int, 0x8000_0000, 59421121885698253195157962752);
            lemma_mul_bound(self@.m02, c2 as int, 0x8000_0000, 59421121885698253195157962752);
            lemma_mul_bound(self@.m03, c3 as int, 0x8000_0000, 59421121885698253195157962752);
        }
        let t0: i128 = (self.m00 as i128) * c0;
        let t1: i128 = (self.m01 as i128) * c1;
        let t2: i128 = (self.m02 as i128) * c2;
        let t3: i128 = (self.m03 as i128) * c3;
        let lim: i128 = 0x1_0000_0000_0000_0000_0000_0000_0000;
        if -lim <= t0 && t0 <= lim && -lim <= t1 && t1 <= lim && -lim <= t2 && t2 <= lim
            && -lim <= t3 && t3 <= lim {
            Some(t0 - t1 + t2 - t3)
        } else {
            proof {
                if m44_small(self@) {
                    lemma_small_cofactor_bound(self@.m00, c0 as int);
                    lemma_small_cofactor_bound(self@.m01, c1 as int);
                    lemma_small_cofactor_bound(self@.m02, c2 as int);
                    lemma_small_cofactor_bound(self@.m03, c3 as int);
                }
            }
            None
        }
    }

    /// A 3x3 integer determinant of nine entries, in wide intermediates.
    fn det3_vals(
        a: i32, b: i32, c: i32, p: i32, q: i32, r: i32, x: i32, y: i32, z: i32,
    ) -> (res: i128)
        ensures
            res as int == det3(a as int, b as int, c as int, p as int, q as int, r as int,
                x as int, y as int, z as int),
            -59421121885698253195157962752 <= res as int <= 59421121885698253195157962752,
            small_nine(a as int, b as int, c as int, p as int, q as int, r as int,
                x as int, y as int, z as int)
                ==> -6000000000000000000 <= res as int <= 6000000000000000000,
    {
        let u0: i128 = wmul32(q, z) as i128 - wmul32(r, y) as i128;
        let u1: i128 = wmul32(r, x) as i128 - wmul32(p, z) as i128;
        let u2: i128 = wmul32(p, y) as i128 - wmul32(q, x) as i128;
        proof {
            lemma_mul_bound(a as int, u0 as int, 0x8000_0000, 0x8000_0000_0000_0000);
            lemma_mul_bound(b as int, u1 as int, 0x8000_0000, 0x8000_0000_0000_0000);
            lemma_mul_bound(c as int, u2 as int, 0x8000_0000, 0x8000_0000_0000_0000);
            if small_nine(a as int, b as int, c as int, p as int, q as int, r as int,
                x as int, y as int, z as int) {
                lemma_mul_bound(q as int, z as int, 1000000, 1000000);
                lemma_mul_bound(r as int, y as int, 1000000, 1000000);
                lemma_mul_bound(r as int, x as int, 1000000, 1000000);
                lemma_mul_bound(p as int, z as int, 1000000, 1000000);
                lemma_mul_bound(p as int, y as int, 1000000, 1000000);
                lemma_mul_bound(q as int, x as int, 1000000, 1000000);
                lemma_mul_bound(a as int, u0 as int, 1000000, 2000000000000);
                lemma_mul_bound(b as int, u1 as int, 1000000, 2000000000000);
                lemma_mul_bound(c as int, u2 as int, 1000000, 2000000000000);
            }
        }
        (a as i128) * u0 + (b as i128) * u1 + (c as i128) * u2
    }

    /// Replaces the matrix with its inverse. A singular matrix is left
    /// unchanged and reported as degenerate; an inverse that does not fit
    /// the representation, or a matrix beyond the internal precision,
    /// leaves the matrix unchanged as well.
    pub fn invert(&mut self) -> (r: Result<(), MathError>)
        requires
            old(self).wf(),
        ensures
            r is Ok ==> final(self).wf() && final(self)@ == m44_inv(old(self)@)
                && m44_det(old(self)@).n != 0,
            r is Err ==> *final(self) == *old(self),
            m44_small(old(self)@) ==> ((r is Ok)
                == (m44_det(old(self)@).n != 0 && m44_fits(m44_inv(old(self)@)))),
            m44_small(old(self)@) && m44_det(old(self)@).n == 0
                ==> (r matches Err(e) ==> e == MathError::DegenerateGeometry),
            m44_small(old(self)@) && m44_det(old(self)@).n != 0
                ==> (r matches Err(e) ==> e == MathError::NumericOverflow),
    {
        let det: i128 = match self.det_num() {
            Some(n) => n,
            None => {
                return Err(MathError::NumericOverflow);
            }
        };
        if det == 0 {
            return Err(MathError::DegenerateGeometry);
        }
        let sg: i64 = if det < 0 { -1 } else { 1 };
        let n00: i128 = Matrix44::scale_cof(Matrix44::det3_vals(
            self.m11, self.m12, self.m13, self.m21, self.m22, self.m23,
            self.m31, self.m32, self.m33), false, self.den, sg);
        let n01: i128 = Matrix44::scale_cof(Matrix44::det3_vals(
            self.m01, self.m02, self.m03, self.m21, self.m22, self.m23,
            self.m31, self.m32, self.m33), true, self.den, sg);
        let n02: i128 = Matrix44::scale_cof(Matrix44::det3_vals(
            self.m01, self.m02, self.m03, self.m11, self.m12, self.m13,
            self.m31, self.m32, self.m33), false, self.den, sg);
        let n03: i128 = Matrix44::scale_cof(Matrix44::det3_vals(
            self.m01, self.m02, self.m03, self.m11, self.m12, self.m13,
            self.m21, self.m22, self.m23), true, self.den, sg);
        let n10: i128 = Matrix44::scale_cof(Matrix44::det3_vals(
            self.m10, self.m12, self.m13, self.m20, self.m22, self.m23,
            self.m30, self.m32, self.m33), true, self.den, sg);
        let n11: i128 = Matrix44::scale_cof(Matrix44::det3_vals(
            self.m00, self.m02, self.m03, self.m20, self.m22, self.m23,
            self.m30, self.m32, self.m33), false, self.den, sg);
        let n12: i128 = Matrix44::scale_cof(Matrix44::det3_vals(
            self.m00, self.m02, self.m03, self.m10, self.m12, self.m13,
            self.m30, self.m32, self.m33), true, self.den, sg);
        let n13: i128 = Matrix44::scale_cof(Matrix44::det3_vals(
            self.m00, self.m02, self.m03, self.m10, self.m12, self.m13,
            self.m20, self.m22, self.m23), false, self.den, sg);
        let n20: i128 = Matrix44::scale_cof(Matrix44::det3_vals(
            self.m10, self.m11, self.m13, self.m20, self.m21, self.m23,
            self.m30, self.m31, self.m33), false, self.den, sg);
        let n21: i128 = Matrix44::scale_cof(Matrix44::det3_vals(
            self.m00, self.m01, self.m03, self.m20, self.m21, self.m23,
            self.m30, self.m31, self.m33), true, self.den, sg);
        let n22: i128 = Matrix44::scale_cof(Matrix44::det3_vals(
            self.m00, self.m01, self.m03, self.m10, self.m11, self.m13,
            self.m30, self.m31, self.m33), false, self.den, sg);
        let n23: i128 = Matrix44::scale_cof(Matrix44::det3_vals(
            self.m00, self.m01, self.m03, self.m10, self.m11, self.m13,
            self.m20, self.m21, self.m23), true, self.den, sg);
        let n30: i128 = Matrix44::scale_cof(Matrix44::det3_vals(
            self.m10, self.m11, self.m12, self.m20, self.m21, self.m22,
            self.m30, self.m31, self.m32), true, self.den, sg);
        let n31: i128 = Matrix44::scale_cof(Matrix44::det3_vals(
            self.m00, self.m01, self.m02, self.m20, self.m21, self.m22,
            self.m30, self.m31, self.m32), false, self.den, sg);
        let n32: i128 = Matrix44::scale_cof(Matrix44::det3_vals(
            self.m00, self.m01, self.m02, self.m10, self.m11, self.m12,
            self.m30, self.m31, self.m32), true, self.den, sg);
        let n33: i128 = Matrix44::scale_cof(Matrix44::det3_vals(
            self.m00, self.m01, self.m02, self.m10, self.m11, self.m12,
            self.m20, self.m21, self.m22), false, self.den, sg);
        let dd: i128 = mul_sign(det, sg);
        match Matrix44::fit(
            n00, n01, n02, n03, n10, n11, n12, n13,
            n20, n21, n22, n23, n30, n31, n32, n33, dd,
        ) {
            Ok(m) => {
                *self = m;
                Ok(())
            }
            Err(e) => Err(e),
        }
    }

    /// One inverse entry: the (possibly negated) cofactor, scaled by the
    /// denominator and by the determinant's sign.
    fn scale_cof(t: i128, neg: bool, den: i32, sg: i64) -> (r: i128)
        requires
            -59421121885698253195157962752 <= t as int <= 59421121885698253195157962752,
            0 < den,
            sg == 1 || sg == -1,
        ensures
            !neg ==> r as int == (t as int) * (den as int) * (sg as int),
            neg ==> r as int == (-(t as int)) * (den as int) * (sg as int),
    {
        proof {
            lemma_mul_bound(t as int, den as int, 59421121885698253195157962752, 0x8000_0000);
        }
        let base: i128 = if neg { -t } else { t };
        proof {
            lemma_mul_bound(base as int, den as int, 59421121885698253195157962752, 0x8000_0000);
            lemma_mul_bound(base as int * den as int, sg as int,
                0x7fff_ffff_ffff_ffff_ffff_ffff_ffff_ffff, 1);
        }
        (base * (den as i128)) * (sg as i128)
    }

    /// Scales the linear rows by the matching components of `v`, composing
    /// the scaling into the accumulated transform; the translation row keeps
    /// its value. On failure the matrix is unchanged.
    pub fn scale(&mut self, v: &Vector3) -> (r: Result<(), MathError>)
        requires
            old(self).wf(),
            v.wf(),
        ensures
            r is Ok ==> final(self).wf() && final(self)@ == m44_scale(old(self)@, v@),
            (r is Ok) == m44_fits(m44_scale(old(self)@, v@)),
            r is Err ==> *final(self) == *old(self),
            r matches Err(e) ==> e == MathError::NumericOverflow,
    {
        match Matrix44::fit(
            wmul32(self.m00, v.x) as i128, wmul32(self.m01, v.x) as i128,
            wmul32(self.m02, v.x) as i128, wmul32(self.m03, v.x) as i128,
            wmul32(self.m10, v.y) as i128, wmul32(self.m11, v.y) as i128,
            wmul32(self.m12, v.y) as i128, wmul32(self.m13, v.y) as i128,
            wmul32(self.m20, v.z) as i128, wmul32(self.m21, v.z) as i128,
            wmul32(self.m22, v.z) as i128, wmul32(self.m23, v.z) as i128,
            wmul32(self.m30, v.den) as i128, wmul32(self.m31, v.den) as i128,
            wmul32(self.m32, v.den) as i128, wmul32(self.m33, v.den) as i128,
            wmul32(self.den, v.den) as i128,
        ) {
            Ok(m) => {
                *self = m;
                Ok(())
            }
            Err(e) => Err(e),
        }
    }

    /// Accumulates a translation by `v`, expressed in the currently
    /// transformed basis: `v` runs through the linear block and is added to
    /// the translation row. On failure the matrix is unchanged.
    pub fn translate(&mut self, v: &Vector3) -> (r: Result<(), MathError>)
        requires
            old(self).wf(),
            v.wf(),
        ensures
            r is Ok ==> final(self).wf() && final(self)@ == m44_translate(old(self)@, v@),
            (r is Ok) == m44_fits(m44_translate(old(self)@, v@)),
            r is Err ==> *final(self) == *old(self),
            r matches Err(e) ==> e == MathError::NumericOverflow,
    {
        match Matrix44::fit(
            wmul32(self.m00, v.den) as i128, wmul32(self.m01, v.den) as i128,
            wmul32(self.m02, v.den) as i128, wmul32(self.m03, v.den) as i128,
            wmul32(self.m10, v.den) as i128, wmul32(self.m11, v.den) as i128,
            wmul32(self.m12, v.den) as i128, wmul32(self.m13, v.den) as i128,
            wmul32(self.m20, v.den) as i128, wmul32(self.m21, v.den) as i128,
            wmul32(self.m22, v.den) as i128, wmul32(self.m23, v.den) as i128,
            wmul32(self.m30, v.den) as i128 + wmul32(self.m00, v.x) as i128
                + wmul32(self.m10, v.y) as i128 + wmul32(self.m20, v.z) as i128,
            wmul32(self.m31, v.den) as i128 + wmul32(self.m01, v.x) as i128
                + wmul32(self.m11, v.y) as i128 + wmul32(self.m21, v.z) as i128,
            wmul32(self.m32, v.den) as i128 + wmul32(self.m02, v.x) as i128
                + wmul32(self.m12, v.y) as i128 + wmul32(self.m22, v.z) as i128,
            wmul32(self.m33, v.den) as i128 + wmul32(self.m03, v.x) as i128
                + wmul32(self.m13, v.y) as i128 + wmul32(self.m23, v.z) as i128,
            wmul32(self.den, v.den) as i128,
        ) {
            Ok(m) => {
                *self = m;
                Ok(())
            }
            Err(e) => Err(e),
        }
    }

    /// Composes a Rodrigues rotation about `eulerAxis` into the accumulated
    /// transform. The angle enters as its exact cosine and sine; the
    /// rotation is proper when the axis has length one and the cosine and
    /// sine satisfy the circle equation. On failure the matrix is unchanged.
    pub fn rotate(&mut self, eulerAxis: &Vector3, c: &Rat, s: &Rat) -> (r: Result<(), MathError>)
        requires
            old(self).wf(),
            eulerAxis.wf(),
            c.wf() && rat_small(c@),
            s.wf() && rat_small(s@),
        ensures
            r is Ok ==> final(self).wf()
                && final(self)@ == m44_mul(old(self)@, m44_rodrigues(eulerAxis@, c@, s@)),
            (r is Ok) == (m44_fits(m44_rodrigues(eulerAxis@, c@, s@))
                && m44_fits(m44_mul(old(self)@, m44_rodrigues(eulerAxis@, c@, s@)))),
            r is Err ==> *final(self) == *old(self),
            r matches Err(e) ==> e == MathError::NumericOverflow,
    {
        let rot: Matrix44 = match Matrix44::rodrigues(eulerAxis, c, s) {
            Ok(m) => m,
            Err(e) => {
                return Err(e);
            }
        };
        let base: Matrix44 = *self;
        match Matrix44::mul(&base, &rot) {
            Ok(m) => {
                *self = m;
                Ok(())
            }
            Err(e) => Err(e),
        }
    }

    /// Builds the Rodrigues rotation block as its own matrix.
    fn rodrigues(a: &Vector3, c: &Rat, s: &Rat) -> (r: Result<Matrix44, MathError>)
        requires
            a.wf(),
            c.wf() && rat_small(c@),
            s.wf() && rat_small(s@),
        ensures
            r matches Ok(m) ==> m.wf() && m@ == m44_rodrigues(a@, c@, s@),
            (r is Ok) == m44_fits(m44_rodrigues(a@, c@, s@)),
            r matches Err(e) ==> e == MathError::NumericOverflow,
    {
        let cdiff: i64 = c.den - c.num;
        let ad2: i64 = wsq32(a.den);
        let f00: i128 = Matrix44::rod_diag(a.x, ad2, cdiff, c.num, s.den);
        let f11: i128 = Matrix44::rod_diag(a.y, ad2, cdiff, c.num, s.den);
        let f22: i128 = Matrix44::rod_diag(a.z, ad2, cdiff, c.num, s.den);
        let (o01, p01): (i128, i128) = Matrix44::rod_terms(a.x, a.y, cdiff, s.den, a.z, s.num, a.den, c.den);
        let (o02, p02): (i128, i128) = Matrix44::rod_terms(a.x, a.z, cdiff, s.den, a.y, s.num, a.den, c.den);
        let (o12, p12): (i128, i128) = Matrix44::rod_terms(a.y, a.z, cdiff, s.den, a.x, s.num, a.den, c.den);
        proof {
            lemma_mul_bound(ad2 as int, c@.d, 0x4000_0000_0000_0000, 0x7fff_ffff);
            lemma_mul_bound(ad2 as int * c@.d, s@.d, 0x2000_0000_0000_0000_0000_0000,
                0x7fff_ffff);
        }
        let dd: i128 = ((ad2 as i128) * (c.den as i128)) * (s.den as i128);
        Matrix44::fit(
            f00, o01 + p01, o02 - p02, 0,
            o01 - p01, f11, o12 + p12, 0,
            o02 + p02, o12 - p12, f22, 0,
            0, 0, 0, dd,
            dd,
        )
    }

    /// A diagonal Rodrigues entry: `(comp^2 * (c.d - c.n) + c.n * ad^2) * s.d`.
    fn rod_diag(comp: i32, ad2: i64, cdiff: i64, cn: i64, sd: i64) -> (r: i128)
        requires
            0 <= ad2 <= 0x4000_0000_0000_0000,
            -0x1_0000_0000 <= cdiff as int <= 0x1_0000_0000,
            -0x7fff_ffff <= cn as int <= 0x7fff_ffff,
            0 < sd <= 0x7fff_ffff,
        ensures
            r as int == ((comp as int) * (comp as int) * (cdiff as int)
                + (cn as int) * (ad2 as int)) * (sd as int),
    {
        let c2: i64 = wsq32(comp);
        proof {
            lemma_mul_bound(c2 as int, cdiff as int, 0x4000_0000_0000_0000, 0x1_0000_0000);
            lemma_mul_bound(cn as int, ad2 as int, 0x7fff_ffff, 0x4000_0000_0000_0000);
            lemma_mul_bound(c2 as int * cdiff as int + cn as int * ad2 as int, sd as int,
                0x8000_0000_0000_0000_0000_0000, 0x7fff_ffff);
        }
        ((c2 as i128) * (cdiff as i128) + (cn as i128) * (ad2 as i128)) * (sd as i128)
    }

    /// The two parts of an off-diagonal Rodrigues entry:
    /// `p * q * (c.d - c.n) * s.d` and `r * s.n * a.d * c.d`.
    fn rod_terms(p: i32, q: i32, cdiff: i64, sd: i64, t: i32, sn: i64, ad: i32, cd: i64)
        -> (r: (i128, i128))
        requires
            -0x1_0000_0000 <= cdiff as int <= 0x1_0000_0000,
            0 < sd <= 0x7fff_ffff,
            -0x7fff_ffff <= sn as int <= 0x7fff_ffff,
            0 < cd <= 0x7fff_ffff,
        ensures
            r.0 as int == (p as int) * (q as int) * (cdiff as int) * (sd as int),
            r.1 as int == (t as int) * (sn as int) * (ad as int) * (cd as int),
            -0x2000_0000_0000_0000_0000_0000_0000_0000 <= r.0 as int
                <= 0x2000_0000_0000_0000_0000_0000_0000_0000,
            -0x1000_0000_0000_0000_0000_0000_0000_0000 <= r.1 as int
                <= 0x1000_0000_0000_0000_0000_0000_0000_0000,
    {
        let pq: i64 = wmul32(p, q);
        proof {
            lemma_mul_bound(pq as int, cdiff as int, 0x4000_0000_0000_0000, 0x1_0000_0000);
            lemma_mul_bound(pq as int * cdiff as int, sd as int,
                0x4000_0000_0000_0000_0000_0000, 0x7fff_ffff);
            lemma_mul_bound(t as int, sn as int, 0x8000_0000, 0x7fff_ffff);
            lemma_mul_bound(t as int * sn as int, ad as int, 0x4000_0000_0000_0000, 0x8000_0000);
            lemma_mul_bound(t as int * sn as int * ad as int, cd as int,
                0x2000_0000_0000_0000_0000_0000, 0x7fff_ffff);
        }
        let omc: i128 = ((pq as i128) * (cdiff as i128)) * (sd as i128);
        let sin: i128 = (((t as i128) * (sn as i128)) * (ad as i128)) * (cd as i128);
        (omc, sin)
    }

    #[verifier::rlimit(50)]
    pub(crate) fn fit(
        n00: i128, n01: i128, n02: i128, n03: i128,
        n10: i128, n11: i128, n12: i128, n13: i128,
        n20: i128, n21: i128, n22: i128, n23: i128,
        n30: i128, n31: i128, n32: i128, n33: i128,
        d: i128,
    ) -> (r: Result<Matrix44, MathError>)
        ensures
            r matches Ok(m) ==> m.wf()
                && m@ == (Mat44Model {
                    m00: n00 as int, m01: n01 as int, m02: n02 as int, m03: n03 as int,
                    m10: n10 as int, m11: n11 as int, m12: n12 as int, m13: n13 as int,
                    m20: n20 as int, m21: n21 as int, m22: n22 as int, m23: n23 as int,
                    m30: n30 as int, m31: n31 as int, m32: n32 as int, m33: n33 as int,
                    d: d as int }),
            (r is Ok) == m44_fits(Mat44Model {
                m00: n00 as int, m01: n01 as int, m02: n02 as int, m03: n03 as int,
                m10: n10 as int, m11: n11 as int, m12: n12 as int, m13: n13 as int,
                m20: n20 as int, m21: n21 as int, m22: n22 as int, m23: n23 as int,
                m30: n30 as int, m31: n31 as int, m32: n32 as int, m33: n33 as int,
                d: d as int }),
            r matches Err(e) ==> e == MathError::NumericOverflow,
    {
        if 0 < d && d <= 0x7fff_ffff
            && -0x7fff_ffff <= n00 && n00 <= 0x7fff_ffff
            && -0x7fff_ffff <= n01 && n01 <= 0x7fff_ffff
            && -0x7fff_ffff <= n02 && n02 <= 0x7fff_ffff
            && -0x7fff_ffff <= n03 && n03 <= 0x7fff_ffff
            && -0x7fff_ffff <= n10 && n10 <= 0x7fff_ffff
            && -0x7fff_ffff <= n11 && n11 <= 0x7fff_ffff
            && -0x7fff_ffff <= n12 && n12 <= 0x7fff_ffff
            && -0x7fff_ffff <= n13 && n13 <= 0x7fff_ffff
            && -0x7fff_ffff <= n20 && n20 <= 0x7fff_ffff
            && -0x7fff_ffff <= n21 && n21 <= 0x7fff_ffff
            && -0x7fff_ffff <= n22 && n22 <= 0x7fff_ffff
            && -0x7fff_ffff <= n23 && n23 <= 0x7fff_ffff
            && -0x7fff_ffff <= n30 && n30 <= 0x7fff_ffff
            && -0x7fff_ffff <= n31 && n31 <= 0x7fff_ffff
            && -0x7fff_ffff <= n32 && n32 <= 0x7fff_ffff
            && -0x7fff_ffff <= n33 && n33 <= 0x7fff_ffff {
            Ok(Matrix44 {
                m00: n00 as i32, m01: n01 as i32, m02: n02 as i32, m03: n03 as i32,
                m10: n10 as i32, m11: n11 as i32, m12: n12 as i32, m13: n13 as i32,
                m20: n20 as i32, m21: n21 as i32, m22: n22 as i32, m23: n23 as i32,
                m30: n30 as i32, m31: n31 as i32, m32: n32 as i32, m33: n33 as i32,
                den: d as i32,
            })
        } else {
            Err(MathError::NumericOverflow)
        }
    }
}

/// Nine entries within the `m44_small` bound.
pub open spec fn small_nine(
    a: int, b: int, c: int, p: int, q: int, r: int, x: int, y: int, z: int,
) -> bool {
    -1000000 <= a <= 1000000 && -1000000 <= b <= 1000000 && -1000000 <= c <= 1000000
        && -1000000 <= p <= 1000000 && -1000000 <= q <= 1000000 && -1000000 <= r <= 1000000
        && -1000000 <= x <= 1000000 && -1000000 <= y <= 1000000 && -1000000 <= z <= 1000000
}

/// Within the `m44_small` bound a scaled cofactor never trips the internal
/// precision guard.
proof fn lemma_small_cofactor_bound(m: int, c: int)
    by (nonlinear_arith)
    requires
        -1000000 <= m <= 1000000,
        -6000000000000000000 <= c <= 6000000000000000000,
    ensures
        -0x1_0000_0000_0000_0000_0000_0000_0000 <= m * c <= 0x1_0000_0000_0000_0000_0000_0000_0000,
{
}

// ------------------------------------------------------------------- laws

/// Multiplying by the identity on either side leaves every entry's value
/// unchanged.
pub proof fn lemma_mul_identity_m44(m: Mat44Model)
    requires
        m44_wf(m),
    ensures
        m44_veq(m44_mul(m, m44_identity()), m),
        m44_veq(m44_mul(m44_identity(), m), m),
{
    lemma_identity_entry4(m.m00, m.m10, m.m20, m.m30, m.d);
    lemma_identity_entry4(m.m01, m.m11, m.m21, m.m31, m.d);
    lemma_identity_entry4(m.m02, m.m12, m.m22, m.m32, m.d);
    lemma_identity_entry4(m.m03, m.m13, m.m23, m.m33, m.d);
    lemma_identity_entry4(m.m00, m.m01, m.m02, m.m03, m.d);
    lemma_identity_entry4(m.m10, m.m11, m.m12, m.m13, m.d);
    lemma_identity_entry4(m.m20, m.m21, m.m22, m.m23, m.d);
    lemma_identity_entry4(m.m30, m.m31, m.m32, m.m33, m.d);
}

/// The identity composes away exactly: multiplying the identity (as the
/// first factor) by `m` gives `m` itself, field for field.
pub proof fn lemma_mul_identity_left_exact(m: Mat44Model)
    ensures
        m44_mul(m44_identity(), m) == m,
{
}

/// One entry of a product against the identity.
proof fn lemma_identity_entry4(a: int, b: int, c: int, e: int, d: int)
    by (nonlinear_arith)
    ensures
        (a * 1 + b * 0 + c * 0 + e * 0) * d == a * (d * 1),
        (a * 0 + b * 1 + c * 0 + e * 0) * d == b * (d * 1),
        (a * 0 + b * 0 + c * 1 + e * 0) * d == c * (d * 1),
        (a * 0 + b * 0 + c * 0 + e * 1) * d == e * (d * 1),
        (1 * a + 0 * b + 0 * c + 0 * e) * d == a * (1 * d),
        (0 * a + 1 * b + 0 * c + 0 * e) * d == b * (1 * d),
        (0 * a + 0 * b + 1 * c + 0 * e) * d == c * (1 * d),
        (0 * a + 0 * b + 0 * c + 1 * e) * d == e * (1 * d),
{
}





/// The identity matrix written over the denominator `k`: one repeated
/// diagonal entry equal to the denominator.
pub open spec fn m44_scaled_identity(k: int) -> Mat44Model {
    Mat44Model {
        m00: k, m01: 0, m02: 0, m03: 0,
        m10: 0, m11: k, m12: 0, m13: 0,
        m20: 0, m21: 0, m22: k, m23: 0,
        m30: 0, m31: 0, m32: 0, m33: k,
        d: k,
    }
}

/// One entry of the associativity law, on plain integers: `a0..a3` is one
/// column of the first factor, `b` the whole middle factor, `c0..c3` one
/// row of the last factor.
proof fn lemma_assoc_entry(
    a0: int, a1: int, a2: int, a3: int,
    b00: int, b01: int, b02: int, b03: int,
    b10: int, b11: int, b12: int, b13: int,
    b20: int, b21: int, b22: int, b23: int,
    b30: int, b31: int, b32: int, b33: int,
    c0: int, c1: int, c2: int, c3: int,
)
    ensures
        (a0 * b00 + a1 * b01 + a2 * b02 + a3 * b03) * c0
            + (a0 * b10 + a1 * b11 + a2 * b12 + a3 * b13) * c1
            + (a0 * b20 + a1 * b21 + a2 * b22 + a3 * b23) * c2
            + (a0 * b30 + a1 * b31 + a2 * b32 + a3 * b33) * c3
            == a0 * (b00 * c0 + b10 * c1 + b20 * c2 + b30 * c3)
                + a1 * (b01 * c0 + b11 * c1 + b21 * c2 + b31 * c3)
                + a2 * (b02 * c0 + b12 * c1 + b22 * c2 + b32 * c3)
                + a3 * (b03 * c0 + b13 * c1 + b23 * c2 + b33 * c3),
{
    lemma_distrib_row(a0, a1, a2, a3, b00, b01, b02, b03, c0);
    lemma_distrib_row(a0, a1, a2, a3, b10, b11, b12, b13, c1);
    lemma_distrib_row(a0, a1, a2, a3, b20, b21, b22, b23, c2);
    lemma_distrib_row(a0, a1, a2, a3, b30, b31, b32, b33, c3);
    lemma_distrib_col(a0, b00, b10, b20, b30, c0, c1, c2, c3);
    lemma_distrib_col(a1, b01, b11, b21, b31, c0, c1, c2, c3);
    lemma_distrib_col(a2, b02, b12, b22, b32, c0, c1, c2, c3);
    lemma_distrib_col(a3, b03, b13, b23, b33, c0, c1, c2, c3);
}

/// Distributes one factor over a four-term sum on the left.
proof fn lemma_distrib_row(
    a0: int, a1: int, a2: int, a3: int, b0: int, b1: int, b2: int, b3: int, c: int,
)
    ensures
        (a0 * b0 + a1 * b1 + a2 * b2 + a3 * b3) * c
            == a0 * (b0 * c) + a1 * (b1 * c) + a2 * (b2 * c) + a3 * (b3 * c),
{
    vstd::arithmetic::mul::lemma_mul_is_distributive_add_other_way(
        c, a0 * b0 + a1 * b1 + a2 * b2, a3 * b3);
    vstd::arithmetic::mul::lemma_mul_is_distributive_add_other_way(
        c, a0 * b0 + a1 * b1, a2 * b2);
    vstd::arithmetic::mul::lemma_mul_is_distributive_add_other_way(c, a0 * b0, a1 * b1);
    vstd::arithmetic::mul::lemma_mul_is_associative(a0, b0, c);
    vstd::arithmetic::mul::lemma_mul_is_associative(a1, b1, c);
    vstd::arithmetic::mul::lemma_mul_is_associative(a2, b2, c);
    vstd::arithmetic::mul::lemma_mul_is_associative(a3, b3, c);
}

/// Distributes one factor over a four-term sum on the right.
proof fn lemma_distrib_col(
    a: int, b0: int, b1: int, b2: int, b3: int, c0: int, c1: int, c2: int, c3: int,
)
    ensures
        a * (b0 * c0 + b1 * c1 + b2 * c2 + b3 * c3)
            == a * (b0 * c0) + a * (b1 * c1) + a * (b2 * c2) + a * (b3 * c3),
{
    vstd::arithmetic::mul::lemma_mul_is_distributive_add(
        a, b0 * c0 + b1 * c1 + b2 * c2, b3 * c3);
    vstd::arithmetic::mul::lemma_mul_is_distributive_add(a, b0 * c0 + b1 * c1, b2 * c2);
    vstd::arithmetic::mul::lemma_mul_is_distributive_add(a, b0 * c0, b1 * c1);
}

/// Matrix composition is associative.
pub proof fn lemma_m44_assoc(a: Mat44Model, b: Mat44Model, c: Mat44Model)
    ensures
        m44_mul(m44_mul(a, b), c) == m44_mul(a, m44_mul(b, c)),
{
    lemma_assoc_col(a.m00, a.m10, a.m20, a.m30, b, c);
    lemma_assoc_col(a.m01, a.m11, a.m21, a.m31, b, c);
    lemma_assoc_col(a.m02, a.m12, a.m22, a.m32, b, c);
    lemma_assoc_col(a.m03, a.m13, a.m23, a.m33, b, c);
    assert((a.d * b.d) * c.d == a.d * (b.d * c.d)) by (nonlinear_arith);
}

/// Associativity for one column of the first factor against every row of
/// the last factor.
proof fn lemma_assoc_col(a0: int, a1: int, a2: int, a3: int, b: Mat44Model, c: Mat44Model)
    ensures
        (a0 * b.m00 + a1 * b.m01 + a2 * b.m02 + a3 * b.m03) * c.m00
            + (a0 * b.m10 + a1 * b.m11 + a2 * b.m12 + a3 * b.m13) * c.m01
            + (a0 * b.m20 + a1 * b.m21 + a2 * b.m22 + a3 * b.m23) * c.m02
            + (a0 * b.m30 + a1 * b.m31 + a2 * b.m32 + a3 * b.m33) * c.m03
            == a0 * (b.m00 * c.m00 + b.m10 * c.m01 + b.m20 * c.m02 + b.m30 * c.m03)
                + a1 * (b.m01 * c.m00 + b.m11 * c.m01 + b.m21 * c.m02 + b.m31 * c.m03)
                + a2 * (b.m02 * c.m00 + b.m12 * c.m01 + b.m22 * c.m02 + b.m32 * c.m03)
                + a3 * (b.m03 * c.m00 + b.m13 * c.m01 + b.m23 * c.m02 + b.m33 * c.m03),
        (a0 * b.m00 + a1 * b.m01 + a2 * b.m02 + a3 * b.m03) * c.m10
            + (a0 * b.m10 + a1 * b.m11 + a2 * b.m12 + a3 * b.m13) * c.m11
            + (a0 * b.m20 + a1 * b.m21 + a2 * b.m22 + a3 * b.m23) * c.m12
            + (a0 * b.m30 + a1 * b.m31 + a2 * b.m32 + a3 * b.m33) * c.m13
            == a0 * (b.m00 * c.m10 + b.m10 * c.m11 + b.m20 * c.m12 + b.m30 * c.m13)
                + a1 * (b.m01 * c.m10 + b.m11 * c.m11 + b.m21 * c.m12 + b.m31 * c.m13)
                + a2 * (b.m02 * c.m10 + b.m12 * c.m11 + b.m22 * c.m12 + b.m32 * c.m13)
                + a3 * (b.m03 * c.m10 + b.m13 * c.m11 + b.m23 * c.m12 + b.m33 * c.m13),
        (a0 * b.m00 + a1 * b.m01 + a2 * b.m02 + a3 * b.m03) * c.m20
            + (a0 * b.m10 + a1 * b.m11 + a2 * b.m12 + a3 * b.m13) * c.m21
            + (a0 * b.m20 + a1 * b.m21 + a2 * b.m22 + a3 * b.m23) * c.m22
            + (a0 * b.m30 + a1 * b.m31 + a2 * b.m32 + a3 * b.m33) * c.m23
            == a0 * (b.m00 * c.m20 + b.m10 * c.m21 + b.m20 * c.m22 + b.m30 * c.m23)
                + a1 * (b.m01 * c.m20 + b.m11 * c.m21 + b.m21 * c.m22 + b.m31 * c.m23)
                + a2 * (b.m02 * c.m20 + b.m12 * c.m21 + b.m22 * c.m22 + b.m32 * c.m23)
                + a3 * (b.m03 * c.m20 + b.m13 * c.m21 + b.m23 * c.m22 + b.m33 * c.m23),
        (a0 * b.m00 + a1 * b.m01 + a2 * b.m02 + a3 * b.m03) * c.m30
            + (a0 * b.m10 + a1 * b.m11 + a2 * b.m12 + a3 * b.m13) * c.m31
            + (a0 * b.m20 + a1 * b.m21 + a2 * b.m22 + a3 * b.m23) * c.m32
            + (a0 * b.m30 + a1 * b.m31 + a2 * b.m32 + a3 * b.m33) * c.m33
            == a0 * (b.m00 * c.m30 + b.m10 * c.m31 + b.m20 * c.m32 + b.m30 * c.m33)
                + a1 * (b.m01 * c.m30 + b.m11 * c.m31 + b.m21 * c.m32 + b.m31 * c.m33)
                + a2 * (b.m02 * c.m30 + b.m12 * c.m31 + b.m22 * c.m32 + b.m32 * c.m33)
                + a3 * (b.m03 * c.m30 + b.m13 * c.m31 + b.m23 * c.m32 + b.m33 * c.m33),
{
    lemma_assoc_entry(a0, a1, a2, a3,
        b.m00, b.m01, b.m02, b.m03, b.m10, b.m11, b.m12, b.m13,
        b.m20, b.m21, b.m22, b.m23, b.m30, b.m31, b.m32, b.m33,
        c.m00, c.m01, c.m02, c.m03);
    lemma_assoc_entry(a0, a1, a2, a3,
        b.m00, b.m01, b.m02, b.m03, b.m10, b.m11, b.m12, b.m13,
        b.m20, b.m21, b.m22, b.m23, b.m30, b.m31, b.m32, b.m33,
        c.m10, c.m11, c.m12, c.m13);
    lemma_assoc_entry(a0, a1, a2, a3,
        b.m00, b.m01, b.m02, b.m03, b.m10, b.m11, b.m12, b.m13,
        b.m20, b.m21, b.m22, b.m23, b.m30, b.m31, b.m32, b.m33,
        c.m20, c.m21, c.m22, c.m23);
    lemma_assoc_entry(a0, a1, a2, a3,
        b.m00, b.m01, b.m02, b.m03, b.m10, b.m11, b.m12, b.m13,
        b.m20, b.m21, b.m22, b.m23, b.m30, b.m31, b.m32, b.m33,
        c.m30, c.m31, c.m32, c.m33);
}

/// One row of multiplying by a scaled identity.
proof fn lemma_absorb_entry(a: int, b: int, c: int, e: int, k: int, d: int)
    by (nonlinear_arith)
    ensures
        (a * k + b * 0 + c * 0 + e * 0) * d == a * (d * k),
        (a * 0 + b * k + c * 0 + e * 0) * d == b * (d * k),
        (a * 0 + b * 0 + c * k + e * 0) * d == c * (d * k),
        (a * 0 + b * 0 + c * 0 + e * k) * d == e * (d * k),
{
}

/// Multiplying by a scaled identity leaves every entry's value unchanged.
pub proof fn lemma_absorb_scaled_identity(m: Mat44Model, k: int)
    ensures
        m44_veq(m44_mul(m, m44_scaled_identity(k)), m),
{
    lemma_absorb_entry(m.m00, m.m10, m.m20, m.m30, k, m.d);
    lemma_absorb_entry(m.m01, m.m11, m.m21, m.m31, k, m.d);
    lemma_absorb_entry(m.m02, m.m12, m.m22, m.m32, k, m.d);
    lemma_absorb_entry(m.m03, m.m13, m.m23, m.m33, k, m.d);
}



/// One diagonal entry of a Rodrigues block composed with the block of the
/// opposite angle equals the squared common denominator, for a unit axis
/// and a cosine and sine on the unit circle. Stated for the first diagonal
/// entry; the others follow by cyclic permutation of the axis components.
proof fn lemma_rod_diag_general(
    x: int, y: int, z: int, dd: int, p: int, pp: int, q: int, qq: int,
)
    requires
        x * x + y * y + z * z == dd * dd,
        p * p * (qq * qq) + q * q * (pp * pp) == (pp * pp) * (qq * qq),
    ensures
        ((x * x * (pp - p) + p * (dd * dd)) * qq) * ((x * x * (pp - p) + p * (dd * dd)) * qq)
            + (x * y * (pp - p) * qq - z * q * dd * pp)
                * (x * y * (pp - p) * qq + z * (-q) * dd * pp)
            + (x * z * (pp - p) * qq + y * q * dd * pp)
                * (x * z * (pp - p) * qq - y * (-q) * dd * pp)
            == (dd * dd * pp * qq) * (dd * dd * pp * qq),
{
    let u: int = pp - p;
    let k2: int = q * dd * pp;
    let s2: int = x * x * u;
    let t2: int = p * (dd * dd);
    let a2: int = x * y * u;
    let b2: int = z * k2;
    let c2: int = x * z * u;
    let e2: int = y * k2;
    let qsq: int = qq * qq;
    let d2: int = dd * dd;
    let g2: int = (q * q) * (pp * pp);
    let xx: int = x * x;

    // The block entries in terms of the abbreviations.
    assert(x * y * (pp - p) * qq + z * (-q) * dd * pp == a2 * qq - b2) by (nonlinear_arith)
        requires a2 == x * y * u && b2 == z * k2 && k2 == q * dd * pp && u == pp - p;
    assert(x * y * (pp - p) * qq - z * q * dd * pp == a2 * qq - b2) by (nonlinear_arith)
        requires a2 == x * y * u && b2 == z * k2 && k2 == q * dd * pp && u == pp - p;
    assert(x * z * (pp - p) * qq + y * q * dd * pp == c2 * qq + e2) by (nonlinear_arith)
        requires c2 == x * z * u && e2 == y * k2 && k2 == q * dd * pp && u == pp - p;
    assert(x * z * (pp - p) * qq - y * (-q) * dd * pp == c2 * qq + e2) by (nonlinear_arith)
        requires c2 == x * z * u && e2 == y * k2 && k2 == q * dd * pp && u == pp - p;
    assert((x * x * (pp - p) + p * (dd * dd)) * qq == (s2 + t2) * qq) by (nonlinear_arith)
        requires s2 == x * x * u && t2 == p * (dd * dd) && u == pp - p;

    // Square expansions.
    assert(((s2 + t2) * qq) * ((s2 + t2) * qq)
        == (s2 * s2) * qsq + 2 * ((s2 * t2) * qsq) + (t2 * t2) * qsq) by (nonlinear_arith)
        requires qsq == qq * qq;
    assert((a2 * qq - b2) * (a2 * qq - b2)
        == (a2 * a2) * qsq - 2 * ((a2 * qq) * b2) + b2 * b2) by (nonlinear_arith)
        requires qsq == qq * qq;
    assert((c2 * qq + e2) * (c2 * qq + e2)
        == (c2 * c2) * qsq + 2 * ((c2 * qq) * e2) + e2 * e2) by (nonlinear_arith)
        requires qsq == qq * qq;

    // The mixed sine terms cancel against each other.
    assert((a2 * qq) * b2 == (c2 * qq) * e2) by (nonlinear_arith)
        requires a2 == x * y * u && b2 == z * k2 && c2 == x * z * u && e2 == y * k2;

    // Cosine-part squares: gather the axis norm.
    assert(s2 * s2 == (xx * xx) * (u * u)) by (nonlinear_arith)
        requires s2 == x * x * u && xx == x * x;
    assert(a2 * a2 == (xx * (y * y)) * (u * u)) by (nonlinear_arith)
        requires a2 == x * y * u && xx == x * x;
    assert(c2 * c2 == (xx * (z * z)) * (u * u)) by (nonlinear_arith)
        requires c2 == x * z * u && xx == x * x;
    assert((xx * xx) * (u * u) + (xx * (y * y)) * (u * u) + (xx * (z * z)) * (u * u)
        == (xx * (x * x + y * y + z * z)) * (u * u)) by (nonlinear_arith)
        requires xx == x * x;
    assert(s2 * t2 == ((xx * (u * p)) * d2)) by (nonlinear_arith)
        requires s2 == x * x * u && t2 == p * (dd * dd) && xx == x * x && d2 == dd * dd;
    assert(t2 * t2 == ((p * p) * d2) * d2) by (nonlinear_arith)
        requires t2 == p * (dd * dd) && d2 == dd * dd;

    // Sine-part squares: gather the complementary axis norm.
    assert(k2 * k2 == g2 * d2) by (nonlinear_arith)
        requires k2 == q * dd * pp && g2 == (q * q) * (pp * pp) && d2 == dd * dd;
    assert(b2 * b2 == (z * z) * (k2 * k2)) by (nonlinear_arith)
        requires b2 == z * k2;
    assert(e2 * e2 == (y * y) * (k2 * k2)) by (nonlinear_arith)
        requires e2 == y * k2;
    assert((z * z) * (g2 * d2) + (y * y) * (g2 * d2) == ((d2 - xx) * g2) * d2) by (nonlinear_arith)
        requires z * z + y * y == d2 - xx && xx == x * x && d2 == dd * dd
            && x * x + y * y + z * z == dd * dd;

    // The circle equation: the axis-dependent parts cancel.
    assert((u * u + 2 * (u * p)) * qsq == g2) by (nonlinear_arith)
        requires
            u == pp - p,
            qsq == qq * qq,
            g2 == (q * q) * (pp * pp),
            p * p * (qq * qq) + q * q * (pp * pp) == (pp * pp) * (qq * qq);
    assert((xx * (x * x + y * y + z * z)) * (u * u) == (xx * d2) * (u * u))
        by (nonlinear_arith)
        requires x * x + y * y + z * z == dd * dd && d2 == dd * dd;
    assert(((xx * d2) * (u * u)) * qsq == (xx * ((u * u) * qsq)) * d2) by (nonlinear_arith);
    assert(2 * (((xx * (u * p)) * d2) * qsq) == (xx * (2 * ((u * p) * qsq))) * d2)
        by (nonlinear_arith);
    assert((xx * ((u * u) * qsq)) * d2 + (xx * (2 * ((u * p) * qsq))) * d2 - (xx * g2) * d2
        == (xx * ((u * u) * qsq + 2 * ((u * p) * qsq) - g2)) * d2) by (nonlinear_arith);
    assert((u * u) * qsq + 2 * ((u * p) * qsq) == (u * u + 2 * (u * p)) * qsq)
        by (nonlinear_arith);
    assert((xx * ((u * u + 2 * (u * p)) * qsq - g2)) * d2 == 0) by (nonlinear_arith)
        requires (u * u + 2 * (u * p)) * qsq == g2;

    // The remaining terms are the squared denominator.
    assert((((p * p) * d2) * d2) * qsq + (g2 * d2) * d2 == (((p * p) * qsq + g2) * d2) * d2)
        by (nonlinear_arith);
    assert((p * p) * qsq + g2 == (pp * pp) * qsq) by (nonlinear_arith)
        requires
            qsq == qq * qq,
            g2 == (q * q) * (pp * pp),
            p * p * (qq * qq) + q * q * (pp * pp) == (pp * pp) * (qq * qq);
    assert((((pp * pp) * qsq) * d2) * d2 == (dd * dd * pp * qq) * (dd * dd * pp * qq))
        by (nonlinear_arith)
        requires qsq == qq * qq && d2 == dd * dd;

    // Chain the groups back together.
    assert((s2 * s2) * qsq + (a2 * a2) * qsq + (c2 * c2) * qsq
        == ((xx * (x * x + y * y + z * z)) * (u * u)) * qsq) by (nonlinear_arith)
        requires
            s2 * s2 == (xx * xx) * (u * u),
            a2 * a2 == (xx * (y * y)) * (u * u),
            c2 * c2 == (xx * (z * z)) * (u * u),
            (xx * xx) * (u * u) + (xx * (y * y)) * (u * u) + (xx * (z * z)) * (u * u)
                == (xx * (x * x + y * y + z * z)) * (u * u);
    assert(b2 * b2 + e2 * e2 == ((d2 - xx) * g2) * d2)
        by (nonlinear_arith)
        requires
            b2 * b2 == (z * z) * (k2 * k2),
            e2 * e2 == (y * y) * (k2 * k2),
            k2 * k2 == g2 * d2,
            (z * z) * (g2 * d2) + (y * y) * (g2 * d2) == ((d2 - xx) * g2) * d2;
    assert(((d2 - xx) * g2) * d2 == (g2 * d2) * d2 - (xx * g2) * d2) by (nonlinear_arith);
}


/// Expands a mixed product of one sine-shifted and one sine-raised factor.
proof fn lemma_expand_mixed(a: int, b: int, c: int, e: int, qq: int, qsq: int)
    requires
        qsq == qq * qq,
    ensures
        (a * qq - b) * (c * qq + e) == (a * c) * qsq + (a * e) * qq - (b * c) * qq - b * e,
        (c * qq + e) * (a * qq - b) == (a * c) * qsq + (a * e) * qq - (b * c) * qq - b * e,
{
    vstd::arithmetic::mul::lemma_mul_is_distributive_sub_other_way(c * qq + e, a * qq, b);
    vstd::arithmetic::mul::lemma_mul_is_distributive_add(a * qq, c * qq, e);
    vstd::arithmetic::mul::lemma_mul_is_distributive_add(b, c * qq, e);
    assert((a * qq) * (c * qq) == (a * c) * qsq) by (nonlinear_arith)
        requires qsq == qq * qq;
    assert((a * qq) * e == (a * e) * qq) by (nonlinear_arith);
    assert(b * (c * qq) == (b * c) * qq) by (nonlinear_arith);
    assert((c * qq + e) * (a * qq - b) == (a * qq - b) * (c * qq + e)) by (nonlinear_arith);
}

/// The two off-diagonal entries of one axis pair of a Rodrigues block
/// composed with the block of the opposite angle vanish, for a unit axis
/// and a cosine and sine on the unit circle. Stated for the `(x, y)` pair;
/// the others follow by cyclic permutation of the axis components.
proof fn lemma_rod_off_general(
    x: int, y: int, z: int, dd: int, p: int, pp: int, q: int, qq: int,
)
    requires
        x * x + y * y + z * z == dd * dd,
        p * p * (qq * qq) + q * q * (pp * pp) == (pp * pp) * (qq * qq),
    ensures
        (x * y * (pp - p) * qq + z * q * dd * pp)
            * ((x * x * (pp - p) + p * (dd * dd)) * qq)
            + ((y * y * (pp - p) + p * (dd * dd)) * qq)
                * (x * y * (pp - p) * qq + z * (-q) * dd * pp)
            + (y * z * (pp - p) * qq - x * q * dd * pp)
                * (x * z * (pp - p) * qq - y * (-q) * dd * pp)
            == 0,
        ((x * x * (pp - p) + p * (dd * dd)) * qq)
            * (x * y * (pp - p) * qq - z * (-q) * dd * pp)
            + (x * y * (pp - p) * qq - z * q * dd * pp)
                * ((y * y * (pp - p) + p * (dd * dd)) * qq)
            + (x * z * (pp - p) * qq + y * q * dd * pp)
                * (y * z * (pp - p) * qq + x * (-q) * dd * pp)
            == 0,
{
    let u: int = pp - p;
    let k2: int = q * dd * pp;
    let s2: int = x * x * u;
    let sy: int = y * y * u;
    let t2: int = p * (dd * dd);
    let a2: int = x * y * u;
    let b2: int = z * k2;
    let c2: int = x * z * u;
    let e2: int = y * k2;
    let f2: int = y * z * u;
    let h2: int = x * k2;
    let qsq: int = qq * qq;
    let d2: int = dd * dd;
    let g2: int = (q * q) * (pp * pp);
    let xy: int = x * y;

    // The block entries in terms of the abbreviations.
    assert(x * y * (pp - p) * qq + z * q * dd * pp == a2 * qq + b2) by (nonlinear_arith)
        requires a2 == x * y * u && b2 == z * k2 && k2 == q * dd * pp && u == pp - p;
    assert(x * y * (pp - p) * qq + z * (-q) * dd * pp == a2 * qq - b2) by (nonlinear_arith)
        requires a2 == x * y * u && b2 == z * k2 && k2 == q * dd * pp && u == pp - p;
    assert(x * y * (pp - p) * qq - z * (-q) * dd * pp == a2 * qq + b2) by (nonlinear_arith)
        requires a2 == x * y * u && b2 == z * k2 && k2 == q * dd * pp && u == pp - p;
    assert(x * y * (pp - p) * qq - z * q * dd * pp == a2 * qq - b2) by (nonlinear_arith)
        requires a2 == x * y * u && b2 == z * k2 && k2 == q * dd * pp && u == pp - p;
    assert(y * z * (pp - p) * qq - x * q * dd * pp == f2 * qq - h2) by (nonlinear_arith)
        requires f2 == y * z * u && h2 == x * k2 && k2 == q * dd * pp && u == pp - p;
    assert(y * z * (pp - p) * qq + x * (-q) * dd * pp == f2 * qq - h2) by (nonlinear_arith)
        requires f2 == y * z * u && h2 == x * k2 && k2 == q * dd * pp && u == pp - p;
    assert(x * z * (pp - p) * qq - y * (-q) * dd * pp == c2 * qq + e2) by (nonlinear_arith)
        requires c2 == x * z * u && e2 == y * k2 && k2 == q * dd * pp && u == pp - p;
    assert(x * z * (pp - p) * qq + y * q * dd * pp == c2 * qq + e2) by (nonlinear_arith)
        requires c2 == x * z * u && e2 == y * k2 && k2 == q * dd * pp && u == pp - p;
    assert((x * x * (pp - p) + p * (dd * dd)) * qq == (s2 + t2) * qq) by (nonlinear_arith)
        requires s2 == x * x * u && t2 == p * (dd * dd) && u == pp - p;
    assert((y * y * (pp - p) + p * (dd * dd)) * qq == (sy + t2) * qq) by (nonlinear_arith)
        requires sy == y * y * u && t2 == p * (dd * dd) && u == pp - p;

    // Product expansions.
    assert((a2 * qq + b2) * ((s2 + t2) * qq)
        == (a2 * (s2 + t2)) * qsq + (b2 * (s2 + t2)) * qq) by (nonlinear_arith)
        requires qsq == qq * qq;
    assert(((sy + t2) * qq) * (a2 * qq - b2)
        == (a2 * (sy + t2)) * qsq - (b2 * (sy + t2)) * qq) by (nonlinear_arith)
        requires qsq == qq * qq;
    lemma_expand_mixed(f2, h2, c2, e2, qq, qsq);
    assert(((s2 + t2) * qq) * (a2 * qq + b2)
        == (a2 * (s2 + t2)) * qsq + (b2 * (s2 + t2)) * qq) by (nonlinear_arith)
        requires qsq == qq * qq;
    assert((a2 * qq - b2) * ((sy + t2) * qq)
        == (a2 * (sy + t2)) * qsq - (b2 * (sy + t2)) * qq) by (nonlinear_arith)
        requires qsq == qq * qq;


    // The cosine-square coefficient gathers the axis norm.
    assert(a2 * (s2 + t2) == a2 * s2 + a2 * t2) by (nonlinear_arith);
    assert(a2 * (sy + t2) == a2 * sy + a2 * t2) by (nonlinear_arith);
    assert(a2 * s2 == (xy * (x * x)) * (u * u)) by (nonlinear_arith)
        requires a2 == x * y * u && s2 == x * x * u && xy == x * y;
    assert(a2 * sy == (xy * (y * y)) * (u * u)) by (nonlinear_arith)
        requires a2 == x * y * u && sy == y * y * u && xy == x * y;
    assert(f2 * c2 == (xy * (z * z)) * (u * u)) by (nonlinear_arith)
        requires f2 == y * z * u && c2 == x * z * u && xy == x * y;
    assert(a2 * t2 == (xy * (u * p)) * d2) by (nonlinear_arith)
        requires a2 == x * y * u && t2 == p * (dd * dd) && xy == x * y && d2 == dd * dd;
    assert((xy * (x * x)) * (u * u) + (xy * (y * y)) * (u * u) + (xy * (z * z)) * (u * u)
        == (xy * (x * x + y * y + z * z)) * (u * u)) by (nonlinear_arith);
    assert((xy * (x * x + y * y + z * z)) * (u * u) == (xy * d2) * (u * u)) by (nonlinear_arith)
        requires x * x + y * y + z * z == dd * dd && d2 == dd * dd;

    // The mixed terms cancel.
    assert(b2 * (s2 + t2) == b2 * s2 + b2 * t2) by (nonlinear_arith);
    assert(b2 * (sy + t2) == b2 * sy + b2 * t2) by (nonlinear_arith);
    assert(b2 * s2 == ((x * x) * z) * (u * k2)) by (nonlinear_arith)
        requires b2 == z * k2 && s2 == x * x * u;
    assert(b2 * sy == ((y * y) * z) * (u * k2)) by (nonlinear_arith)
        requires b2 == z * k2 && sy == y * y * u;
    assert(f2 * e2 == ((y * y) * z) * (u * k2)) by (nonlinear_arith)
        requires f2 == y * z * u && e2 == y * k2;
    assert(h2 * c2 == ((x * x) * z) * (u * k2)) by (nonlinear_arith)
        requires h2 == x * k2 && c2 == x * z * u;
    assert(b2 * (s2 + t2) - b2 * (sy + t2) + f2 * e2 - h2 * c2 == 0);

    // The sine-square part.
    assert(h2 * e2 == xy * (k2 * k2)) by (nonlinear_arith)
        requires h2 == x * k2 && e2 == y * k2 && xy == x * y;
    assert(k2 * k2 == g2 * d2) by (nonlinear_arith)
        requires k2 == q * dd * pp && g2 == (q * q) * (pp * pp) && d2 == dd * dd;
    assert(xy * (k2 * k2) == xy * (g2 * d2));

    // The circle equation removes everything.
    assert((u * u + 2 * (u * p)) * qsq == g2) by (nonlinear_arith)
        requires
            u == pp - p,
            qsq == qq * qq,
            g2 == (q * q) * (pp * pp),
            p * p * (qq * qq) + q * q * (pp * pp) == (pp * pp) * (qq * qq);
    assert(((xy * d2) * (u * u)) * qsq == (xy * ((u * u) * qsq)) * d2) by (nonlinear_arith);
    assert(2 * (((xy * (u * p)) * d2) * qsq) == (xy * (2 * ((u * p) * qsq))) * d2)
        by (nonlinear_arith);
    assert(xy * (g2 * d2) == (xy * g2) * d2) by (nonlinear_arith);
    assert((xy * ((u * u) * qsq)) * d2 + (xy * (2 * ((u * p) * qsq))) * d2 - (xy * g2) * d2
        == (xy * ((u * u) * qsq + 2 * ((u * p) * qsq) - g2)) * d2) by (nonlinear_arith);
    assert((u * u) * qsq + 2 * ((u * p) * qsq) == (u * u + 2 * (u * p)) * qsq)
        by (nonlinear_arith);
    assert((xy * ((u * u + 2 * (u * p)) * qsq - g2)) * d2 == 0) by (nonlinear_arith)
        requires (u * u + 2 * (u * p)) * qsq == g2;
    assert(((xy * d2) * (u * u)) * qsq + 2 * (((xy * (u * p)) * d2) * qsq) - xy * (g2 * d2)
        == 0);

    // Chain the groups back together.
    assert((a2 * s2 + a2 * t2) * qsq + (a2 * sy + a2 * t2) * qsq + (f2 * c2) * qsq
        == ((xy * d2) * (u * u)) * qsq + 2 * (((xy * (u * p)) * d2) * qsq)) by (nonlinear_arith)
        requires
            a2 * s2 == (xy * (x * x)) * (u * u),
            a2 * sy == (xy * (y * y)) * (u * u),
            f2 * c2 == (xy * (z * z)) * (u * u),
            a2 * t2 == (xy * (u * p)) * d2,
            (xy * (x * x)) * (u * u) + (xy * (y * y)) * (u * u) + (xy * (z * z)) * (u * u)
                == (xy * d2) * (u * u);
    assert((b2 * (s2 + t2)) * qq - (b2 * (sy + t2)) * qq + (f2 * e2) * qq - (h2 * c2) * qq
        == (b2 * (s2 + t2) - b2 * (sy + t2) + f2 * e2 - h2 * c2) * qq) by (nonlinear_arith);
    assert((b2 * (s2 + t2) - b2 * (sy + t2) + f2 * e2 - h2 * c2) * qq == 0);
    assert((a2 * (s2 + t2)) * qsq + (a2 * (sy + t2)) * qsq + (f2 * c2) * qsq
        == (a2 * s2 + a2 * t2) * qsq + (a2 * sy + a2 * t2) * qsq + (f2 * c2) * qsq);
    assert((a2 * qq + b2) * ((s2 + t2) * qq) + ((sy + t2) * qq) * (a2 * qq - b2)
        + (f2 * qq - h2) * (c2 * qq + e2) == 0);
    assert(((s2 + t2) * qq) * (a2 * qq + b2) + (a2 * qq - b2) * ((sy + t2) * qq)
        + (c2 * qq + e2) * (f2 * qq - h2) == 0);
}


/// A Rodrigues block composed with the block of the opposite angle is the
/// identity, scaled by the product of the two denominators, for any unit
/// axis and any cosine and sine on the unit circle.
pub proof fn lemma_rodrigues_inverse(a: Vec3Model, c: Ratio, s: Ratio)
    requires
        a.x * a.x + a.y * a.y + a.z * a.z == a.d * a.d,
        c.n * c.n * (s.d * s.d) + s.n * s.n * (c.d * c.d) == (c.d * c.d) * (s.d * s.d),
    ensures
        m44_mul(m44_rodrigues(a, c, s), m44_rodrigues(a, c, ratio_neg(s)))
            == m44_scaled_identity(
                (a.d * a.d * c.d * s.d) * (a.d * a.d * c.d * s.d)),
{
    let f = m44_rodrigues(a, c, s);
    let g = m44_rodrigues(a, c, ratio_neg(s));
    let x: int = a.x;
    let y: int = a.y;
    let z: int = a.z;
    let dd: int = a.d;
    let p: int = c.n;
    let pp: int = c.d;
    let q: int = s.n;
    let qq: int = s.d;
    let k: int = (dd * dd * pp * qq) * (dd * dd * pp * qq);

    lemma_rod_diag_general(x, y, z, dd, p, pp, q, qq);
    lemma_rod_diag_general(y, z, x, dd, p, pp, q, qq);
    lemma_rod_diag_general(z, x, y, dd, p, pp, q, qq);
    lemma_rod_off_general(x, y, z, dd, p, pp, q, qq);
    lemma_rod_off_general(y, z, x, dd, p, pp, q, qq);
    lemma_rod_off_general(z, x, y, dd, p, pp, q, qq);

    // The permuted instances name some products with their factors swapped.
    assert(y * x * (pp - p) * qq == x * y * (pp - p) * qq) by (nonlinear_arith);
    assert(z * x * (pp - p) * qq == x * z * (pp - p) * qq) by (nonlinear_arith);
    assert(z * y * (pp - p) * qq == y * z * (pp - p) * qq) by (nonlinear_arith);

    // Diagonal entries.
    assert(f.m00 * g.m00 + f.m10 * g.m01 + f.m20 * g.m02 + f.m30 * g.m03 == k);
    assert(f.m01 * g.m10
        == (y * x * (pp - p) * qq + z * q * dd * pp)
            * (y * x * (pp - p) * qq - z * (-q) * dd * pp));
    assert(f.m01 * g.m10 + f.m11 * g.m11 + f.m21 * g.m12 + f.m31 * g.m13 == k);
    assert(f.m02 * g.m20
        == (z * x * (pp - p) * qq - y * q * dd * pp)
            * (z * x * (pp - p) * qq + y * (-q) * dd * pp));
    assert(f.m12 * g.m21
        == (z * y * (pp - p) * qq + x * q * dd * pp)
            * (z * y * (pp - p) * qq - x * (-q) * dd * pp));
    assert(f.m02 * g.m20 + f.m12 * g.m21 + f.m22 * g.m22 + f.m32 * g.m23 == k);

    // Off-diagonal entries.
    assert(f.m01 * g.m00 + f.m11 * g.m01 + f.m21 * g.m02 + f.m31 * g.m03 == 0);
    assert(f.m00 * g.m10 + f.m10 * g.m11 + f.m20 * g.m12 + f.m30 * g.m13 == 0);
    assert(f.m02 * g.m10
        == (z * x * (pp - p) * qq - y * q * dd * pp)
            * (y * x * (pp - p) * qq - z * (-q) * dd * pp));
    assert(f.m02 * g.m10 + f.m12 * g.m11 + f.m22 * g.m12 + f.m32 * g.m13 == 0);
    assert(f.m01 * g.m20
        == (y * x * (pp - p) * qq + z * q * dd * pp)
            * (z * x * (pp - p) * qq + y * (-q) * dd * pp));
    assert(f.m01 * g.m20 + f.m11 * g.m21 + f.m21 * g.m22 + f.m31 * g.m23 == 0);
    assert(f.m20 * g.m22
        == (z * x * (pp - p) * qq + y * q * dd * pp) * ((z * z * (pp - p) + p * (dd * dd)) * qq));
    assert(f.m00 * g.m20
        == ((x * x * (pp - p) + p * (dd * dd)) * qq) * (z * x * (pp - p) * qq + y * (-q) * dd * pp));
    assert(f.m10 * g.m21
        == (x * y * (pp - p) * qq - z * q * dd * pp) * (z * y * (pp - p) * qq - x * (-q) * dd * pp));
    assert(f.m00 * g.m20 + f.m10 * g.m21 + f.m20 * g.m22 + f.m30 * g.m23 == 0);
    assert(f.m22 * g.m02
        == ((z * z * (pp - p) + p * (dd * dd)) * qq) * (z * x * (pp - p) * qq - y * (-q) * dd * pp));
    assert(f.m02 * g.m00
        == (z * x * (pp - p) * qq - y * q * dd * pp) * ((x * x * (pp - p) + p * (dd * dd)) * qq));
    assert(f.m12 * g.m01
        == (z * y * (pp - p) * qq + x * q * dd * pp) * (x * y * (pp - p) * qq + z * (-q) * dd * pp));
    assert(f.m02 * g.m00 + f.m12 * g.m01 + f.m22 * g.m02 + f.m32 * g.m03 == 0);

    // The border and the denominator.
    assert(f.m33 * g.m33 == k);
    assert(f.d * g.d == k);
    assert(m44_mul(f, g) == m44_scaled_identity(k));
}

/// Composing a rotation about any unit axis with the rotation by the
/// opposite angle restores every entry of the transform, whenever the
/// cosine and sine lie on the unit circle: the round trip of `rotate`.
pub proof fn lemma_rotate_round_trip(m: Mat44Model, axis: Vec3Model, c: Ratio, s: Ratio)
    requires
        axis.x * axis.x + axis.y * axis.y + axis.z * axis.z == axis.d * axis.d,
        c.n * c.n * (s.d * s.d) + s.n * s.n * (c.d * c.d) == (c.d * c.d) * (s.d * s.d),
    ensures
        m44_veq(
            m44_mul(m44_mul(m, m44_rodrigues(axis, c, s)), m44_rodrigues(axis, c, ratio_neg(s))),
            m,
        ),
{
    let f = m44_rodrigues(axis, c, s);
    let g = m44_rodrigues(axis, c, ratio_neg(s));
    let k: int = (axis.d * axis.d * c.d * s.d) * (axis.d * axis.d * c.d * s.d);
    lemma_m44_assoc(m, f, g);
    lemma_rodrigues_inverse(axis, c, s);
    lemma_absorb_scaled_identity(m, k);
}

} // verus!
