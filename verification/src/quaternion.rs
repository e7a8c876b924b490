//! Exact quaternions: integer components over one positive denominator.
//! Conversion to a rotation matrix is exact; conversion back succeeds when
//! the square roots involved are rational, which holds for every matrix
//! produced from a quaternion with rational components.

#![allow(non_snake_case)]

use vstd::prelude::*;
use crate::rat::{
    Rat, Ratio, MathError, ratio_eq, ratio_mul, ratio_of_int, rat_small, has_root, root_of,
    lemma_root_unique, lemma_mul_bound, wmul32, wsq32, exact_sqrt,
};
use crate::vectors::{
    Vector3, Vec3Model, Vector4, Vec4Model, v3_len2, v4_fits, in_i32, sqrt_over, unit_den,
};
use crate::matrix44::{
    Matrix44, Mat44Model, m44_fits, m44_trans, m44_rodrigues, lemma_mul_identity_left_exact,
};

verus! {

/// Mathematical model: `(x/d, y/d, z/d, w/d)`.
pub ghost struct QuatModel {
    pub x: int,
    pub y: int,
    pub z: int,
    pub w: int,
    pub d: int,
}

pub open spec fn q_wf(q: QuatModel) -> bool {
    0 < q.d <= 0x7fff_ffff && in_i32(q.x) && in_i32(q.y) && in_i32(q.z) && in_i32(q.w)
}

pub open spec fn q_fits(q: QuatModel) -> bool {
    q_wf(q)
}

/// Componentwise value equality.
pub open spec fn q_veq(a: QuatModel, b: QuatModel) -> bool {
    ratio_eq(Ratio { n: a.x, d: a.d }, Ratio { n: b.x, d: b.d })
        && ratio_eq(Ratio { n: a.y, d: a.d }, Ratio { n: b.y, d: b.d })
        && ratio_eq(Ratio { n: a.z, d: a.d }, Ratio { n: b.z, d: b.d })
        && ratio_eq(Ratio { n: a.w, d: a.d }, Ratio { n: b.w, d: b.d })
}

pub open spec fn q_identity() -> QuatModel {
    QuatModel { x: 0, y: 0, z: 0, w: 1, d: 1 }
}

pub open spec fn q_len2(q: QuatModel) -> Ratio {
    Ratio { n: q.x * q.x + q.y * q.y + q.z * q.z + q.w * q.w, d: q.d * q.d }
}

/// Unit length, exactly.
pub open spec fn q_unit(q: QuatModel) -> bool {
    ratio_eq(q_len2(q), ratio_of_int(1))
}

pub open spec fn q_neg(q: QuatModel) -> QuatModel {
    QuatModel { x: -q.x, y: -q.y, z: -q.z, w: -q.w, d: q.d }
}

/// The Hamilton product.
pub open spec fn q_mul(a: QuatModel, b: QuatModel) -> QuatModel {
    QuatModel {
        x: a.x * b.w + a.w * b.x + a.y * b.z - a.z * b.y,
        y: a.y * b.w + a.w * b.y + a.z * b.x - a.x * b.z,
        z: a.z * b.w + a.w * b.z + a.x * b.y - a.y * b.x,
        w: a.w * b.w - a.x * b.x - a.y * b.y - a.z * b.z,
        d: a.d * b.d,
    }
}

/// The rotation matrix of a quaternion, over the denominator `d^2`; a pure
/// rotation block with an identity translation part.
pub open spec fn q_to_matrix(q: QuatModel) -> Mat44Model {
    Mat44Model {
        m00: q.d * q.d - 2 * (q.y * q.y + q.z * q.z),
        m01: 2 * (q.x * q.y - q.z * q.w),
        m02: 2 * (q.x * q.z + q.y * q.w),
        m03: 0,
        m10: 2 * (q.x * q.y + q.z * q.w),
        m11: q.d * q.d - 2 * (q.x * q.x + q.z * q.z),
        m12: 2 * (q.y * q.z - q.x * q.w),
        m13: 0,
        m20: 2 * (q.x * q.z - q.y * q.w),
        m21: 2 * (q.y * q.z + q.x * q.w),
        m22: q.d * q.d - 2 * (q.x * q.x + q.y * q.y),
        m23: 0,
        m30: 0,
        m31: 0,
        m32: 0,
        m33: q.d * q.d,
        d: q.d * q.d,
    }
}

/// The value whose square root drives the selected extraction branch: the
/// shifted trace for a non-negative trace, otherwise the shifted dominant
/// diagonal entry, all numerators over the matrix denominator.
pub open spec fn q_branch_val(m: Mat44Model) -> int {
    let tr = m.m00 + m.m11 + m.m22;
    if tr >= 0 {
        tr + m.d
    } else if m.m00 >= m.m11 && m.m00 >= m.m22 {
        m.m00 - m.m11 - m.m22 + m.d
    } else if m.m11 >= m.m22 {
        m.m11 - m.m22 - m.m00 + m.d
    } else {
        m.m22 - m.m00 - m.m11 + m.d
    }
}

/// The quaternion extracted from a rotation matrix, given the square roots
/// `sn * sn == q_branch_val(m)` and `sd * sd == m.d`: the trace-based branch
/// when the trace is non-negative, otherwise the branch of the largest
/// diagonal entry.
pub open spec fn q_from_rotation(m: Mat44Model, sn: int, sd: int) -> QuatModel {
    let tr = m.m00 + m.m11 + m.m22;
    if tr >= 0 {
        QuatModel {
            x: (m.m21 - m.m12) * sd,
            y: (m.m02 - m.m20) * sd,
            z: (m.m10 - m.m01) * sd,
            w: (tr + m.d) * sd,
            d: 2 * sn * m.d,
        }
    } else if m.m00 >= m.m11 && m.m00 >= m.m22 {
        QuatModel {
            x: (m.m00 - m.m11 - m.m22 + m.d) * sd,
            y: (m.m01 + m.m10) * sd,
            z: (m.m20 + m.m02) * sd,
            w: (m.m21 - m.m12) * sd,
            d: 2 * sn * m.d,
        }
    } else if m.m11 >= m.m22 {
        QuatModel {
            x: (m.m01 + m.m10) * sd,
            y: (m.m11 - m.m22 - m.m00 + m.d) * sd,
            z: (m.m12 + m.m21) * sd,
            w: (m.m02 - m.m20) * sd,
            d: 2 * sn * m.d,
        }
    } else {
        QuatModel {
            x: (m.m20 + m.m02) * sd,
            y: (m.m12 + m.m21) * sd,
            z: (m.m22 - m.m00 - m.m11 + m.d) * sd,
            w: (m.m10 - m.m01) * sd,
            d: 2 * sn * m.d,
        }
    }
}

/// The quaternion read back from `m` with the canonical square roots of the
/// branch value and the matrix denominator.
pub open spec fn q_extracted(m: Mat44Model) -> QuatModel {
    q_from_rotation(m, root_of(q_branch_val(m)), root_of(m.d))
}

/// Reading a quaternion back from `m` succeeds: the branch value is
/// positive, both square roots are exact, and the extraction fits.
pub open spec fn q_extractable(m: Mat44Model) -> bool {
    has_root(q_branch_val(m)) && q_branch_val(m) > 0 && has_root(m.d)
        && q_fits(q_extracted(m))
}

/// `r` is `c` rescaled to unit length, or `c` itself when `c` is zero (the
/// no-op case of `normalize`).
pub open spec fn q_normalized_to(c: QuatModel, r: QuatModel) -> bool {
    if q_len2(c).n == 0 {
        r == c
    } else {
        r.x == c.x && r.y == c.y && r.z == c.z && r.w == c.w
            && r.d * r.d == q_len2(c).n
    }
}

/// Normalization succeeds on `c`: it is zero, or its squared length has a
/// representable rational root.
pub open spec fn q_normalizable(c: QuatModel) -> bool {
    q_len2(c).n == 0
        || (exists|s: int| 0 < s <= 0x7fff_ffff && #[trigger] (s * s) == q_len2(c).n)
}

/// The shortest-path blend before renormalization: the second operand is
/// negated when the quaternion dot product is negative.
pub open spec fn q_slerp_blend(a: QuatModel, b: QuatModel, t: Ratio) -> QuatModel {
    let dot = a.w * b.w + a.x * b.x + a.y * b.y + a.z * b.z;
    let bb = if dot < 0 { q_neg(b) } else { b };
    QuatModel {
        x: (t.d - t.n) * a.x * bb.d + t.n * bb.x * a.d,
        y: (t.d - t.n) * a.y * bb.d + t.n * bb.y * a.d,
        z: (t.d - t.n) * a.z * bb.d + t.n * bb.z * a.d,
        w: (t.d - t.n) * a.w * bb.d + t.n * bb.w * a.d,
        d: t.d * a.d * bb.d,
    }
}

/// A 3-vector as a homogeneous direction: weight zero.
pub open spec fn v3_direction(v: Vec3Model) -> Vec4Model {
    Vec4Model { x: v.x, y: v.y, z: v.z, w: 0, d: v.d }
}

/// The spatial part of a homogeneous vector, over the same denominator.
pub open spec fn v4_drop_w(v: Vec4Model) -> Vec3Model {
    Vec3Model { x: v.x, y: v.y, z: v.z, d: v.d }
}

/// The orientation matrix that `lookRotation` reads its quaternion from:
/// the normalized right, up and forward axes as its three columns, over the
/// product of the two normalizing roots. The right axis is the cross
/// product of the normalized forward and up vectors.
pub open spec fn look_basis(f: Vec3Model, u: Vec3Model) -> Mat44Model {
    let sf = root_of(v3_len2(f).n);
    let su = root_of(v3_len2(u).n);
    Mat44Model {
        m00: f.y * u.z - f.z * u.y, m01: u.x * sf, m02: f.x * su, m03: 0,
        m10: f.z * u.x - f.x * u.z, m11: u.y * sf, m12: f.y * su, m13: 0,
        m20: f.x * u.y - f.y * u.x, m21: u.z * sf, m22: f.z * su, m23: 0,
        m30: 0, m31: 0, m32: 0, m33: sf * su,
        d: sf * su,
    }
}

/// Every step of `lookRotation` succeeds: both inputs normalize exactly,
/// the basis matrix is representable, and reading the quaternion back and
/// normalizing it succeed.
pub open spec fn look_succeeds(f: Vec3Model, u: Vec3Model) -> bool {
    &&& v3_len2(f).n != 0
    &&& has_root(v3_len2(f).n)
    &&& root_of(v3_len2(f).n) <= 0x7fff_ffff
    &&& v3_len2(u).n != 0
    &&& has_root(v3_len2(u).n)
    &&& root_of(v3_len2(u).n) <= 0x7fff_ffff
    &&& m44_fits(look_basis(f, u))
    &&& q_extractable(look_basis(f, u))
    &&& q_normalizable(q_extracted(look_basis(f, u)))
}

/// An exact quaternion.
#[derive(Clone, Copy, Debug, PartialEq, Eq, Structural)]
pub struct Quaternion {
    pub x: i32,
    pub y: i32,
    pub z: i32,
    pub w: i32,
    pub den: i32,
}

impl View for Quaternion {
    type V = QuatModel;

    open spec fn view(&self) -> QuatModel {
        QuatModel {
            x: self.x as int,
            y: self.y as int,
            z: self.z as int,
            w: self.w as int,
            d: self.den as int,
        }
    }
}

impl Default for Quaternion {
    /// The identity rotation.
    fn default() -> (r: Quaternion)
        ensures
            r.wf(),
            r@ == q_identity(),
    {
        Quaternion { x: 0, y: 0, z: 0, w: 1, den: 1 }
    }
}

impl Quaternion {
    pub open spec fn wf(&self) -> bool {
        q_wf(self@)
    }

    pub fn new(x: i32, y: i32, z: i32, w: i32, den: i32) -> (r: Result<Quaternion, MathError>)
        ensures
            r matches Ok(q) ==> q.wf()
                && q_veq(q@, QuatModel {
                    x: x as int, y: y as int, z: z as int, w: w as int, d: den as int }),
            (r is Ok) == (den != 0 && x != i32::MIN && y != i32::MIN && z != i32::MIN
                && w != i32::MIN && den != i32::MIN),
            den == 0 ==> (r matches Err(e) ==> e == MathError::DegenerateGeometry),
            den != 0 ==> (r matches Err(e) ==> e == MathError::NumericOverflow),
    {
        if den == 0 {
            return Err(MathError::DegenerateGeometry);
        }
        if x == i32::MIN || y == i32::MIN || z == i32::MIN || w == i32::MIN || den == i32::MIN {
            return Err(MathError::NumericOverflow);
        }
        if den < 0 {
            let q = Quaternion { x: -x, y: -y, z: -z, w: -w, den: -den };
            proof {
                lemma_flip(x as int, den as int);
                lemma_flip(y as int, den as int);
                lemma_flip(z as int, den as int);
                lemma_flip(w as int, den as int);
            }
            Ok(q)
        } else {
            Ok(Quaternion { x, y, z, w, den })
        }
    }

    pub fn setIdentity(&mut self)
        ensures
            final(self).wf(),
            final(self)@ == q_identity(),
    {
        self.x = 0;
        self.y = 0;
        self.z = 0;
        self.w = 1;
        self.den = 1;
    }

    /// Euclidean length; exact when the squared length is a perfect square.
    pub fn length(&self) -> (r: Result<Rat, MathError>)
        requires
            self.wf(),
        ensures
            r matches Ok(len) ==> len.wf() && len@.n >= 0 && ratio_mul(len@, len@) == q_len2(self@),
            (r is Ok) == (exists|s: int| 0 <= s && #[trigger] (s * s) == q_len2(self@).n),
            r matches Err(e) ==> e == MathError::NumericOverflow,
    {
        let sum: i128 = wsq32(self.x) as i128 + wsq32(self.y) as i128 + wsq32(self.z) as i128
            + wsq32(self.w) as i128;
        sqrt_over(sum, self.den)
    }

    /// Scales the quaternion to length one, in place; a no-op on the zero
    /// quaternion. Fails, leaving the value unchanged, when the exact length
    /// is not representable.
    pub fn normalize(&mut self) -> (r: Result<(), MathError>)
        requires
            old(self).wf(),
        ensures
            r is Ok ==> final(self).wf(),
            r is Ok && q_len2(old(self)@).n != 0 ==> q_unit(final(self)@)
                && final(self)@.x == old(self)@.x && final(self)@.y == old(self)@.y
                && final(self)@.z == old(self)@.z && final(self)@.w == old(self)@.w
                && final(self)@.d * final(self)@.d == q_len2(old(self)@).n,
            q_len2(old(self)@).n == 0 ==> r is Ok && *final(self) == *old(self),
            (r is Ok) == (q_len2(old(self)@).n == 0
                || (exists|s: int| 0 < s <= 0x7fff_ffff && #[trigger] (s * s) == q_len2(old(self)@).n)),
            r is Err ==> *final(self) == *old(self),
            r matches Err(e) ==> e == MathError::NumericOverflow,
    {
        let sum: i128 = wsq32(self.x) as i128 + wsq32(self.y) as i128 + wsq32(self.z) as i128
            + wsq32(self.w) as i128;
        if sum == 0 {
            return Ok(());
        }
        match unit_den(sum) {
            Ok(s) => {
                self.den = s;
                Ok(())
            }
            Err(e) => Err(e),
        }
    }

    pub fn negate(&mut self)
        requires
            old(self).wf(),
        ensures
            final(self).wf(),
            final(self)@ == q_neg(old(self)@),
    {
        self.x = -self.x;
        self.y = -self.y;
        self.z = -self.z;
        self.w = -self.w;
    }

    /// The rotation matrix of this quaternion: a pure rotation block over
    /// the squared denominator, with an identity translation part.
    pub fn toMatrix(&self) -> (r: Result<Matrix44, MathError>)
        requires
            self.wf(),
        ensures
            r matches Ok(m) ==> m.wf() && m@ == q_to_matrix(self@),
            (r is Ok) == crate::matrix44::m44_fits(q_to_matrix(self@)),
            r matches Err(e) ==> e == MathError::NumericOverflow,
    {
        let xy: i64 = wmul32(self.x, self.y);
        let xz: i64 = wmul32(self.x, self.z);
        let xw: i64 = wmul32(self.x, self.w);
        let yz: i64 = wmul32(self.y, self.z);
        let yw: i64 = wmul32(self.y, self.w);
        let zw: i64 = wmul32(self.z, self.w);
        let x2: i64 = wsq32(self.x);
        let y2: i64 = wsq32(self.y);
        let z2: i64 = wsq32(self.z);
        let d2: i64 = wsq32(self.den);
        Matrix44::fit(
            d2 as i128 - 2 * (y2 as i128 + z2 as i128),
            2 * (xy as i128 - zw as i128),
            2 * (xz as i128 + yw as i128),
            0,
            2 * (xy as i128 + zw as i128),
            d2 as i128 - 2 * (x2 as i128 + z2 as i128),
            2 * (yz as i128 - xw as i128),
            0,
            2 * (xz as i128 - yw as i128),
            2 * (yz as i128 + xw as i128),
            d2 as i128 - 2 * (x2 as i128 + y2 as i128),
            0,
            0,
            0,
            0,
            d2 as i128,
            d2 as i128,
        )
    }

    /// Reads a rotation back from the rotation sub-block of `matrix`, by the
    /// trace-based branch when the trace is non-negative and otherwise by
    /// the branch of the largest diagonal entry. Exact whenever the two
    /// square roots involved are rational, which holds for every matrix that
    /// `toMatrix` produced; on failure the quaternion is unchanged.
    pub fn setMatrix(&mut self, matrix: &Matrix44) -> (r: Result<(), MathError>)
        requires
            matrix.wf(),
        ensures
            r is Ok ==> final(self).wf() && final(self)@ == q_extracted(matrix@),
            (r is Ok) == q_extractable(matrix@),
            r is Err ==> *final(self) == *old(self),
            r matches Err(e) ==> e == MathError::NumericOverflow,
    {
        let sd: i64 = match exact_sqrt(matrix.den as u128) {
            Some(s) => {
                proof {
                    if s as int == 0 {
                        assert((0int) * 0 == 0) by (nonlinear_arith);
                    }
                    if s as int > 0xffff {
                        crate::rat::lemma_sq_monotonic(0x1_0000, s as int);
                        assert(0x1_0000int * 0x1_0000 > 0x7fff_ffff) by (nonlinear_arith);
                    }
                }
                s as i64
            }
            None => {
                return Err(MathError::NumericOverflow);
            }
        };
        let tr: i64 = diag_sum(matrix.m00, matrix.m11, matrix.m22);
        let v: i64 = if tr >= 0 {
            tr + matrix.den as i64
        } else if matrix.m00 >= matrix.m11 && matrix.m00 >= matrix.m22 {
            matrix.m00 as i64 - matrix.m11 as i64 - matrix.m22 as i64 + matrix.den as i64
        } else if matrix.m11 >= matrix.m22 {
            matrix.m11 as i64 - matrix.m22 as i64 - matrix.m00 as i64 + matrix.den as i64
        } else {
            matrix.m22 as i64 - matrix.m00 as i64 - matrix.m11 as i64 + matrix.den as i64
        };
        proof {
            assert(v as int == q_branch_val(matrix@));
        }
        if v < 0 {
            // Not a rotation matrix: the branch value of a rotation is
            // always positive.
            return Err(MathError::NumericOverflow);
        }
        let sn: i64 = match exact_sqrt(v as u128) {
            Some(s) => {
                proof {
                    if s as int > 0x3_ffff {
                        crate::rat::lemma_sq_monotonic(0x4_0000, s as int);
                        assert(0x4_0000int * 0x4_0000 > 0x2_0000_0000) by (nonlinear_arith);
                    }
                }
                s as i64
            }
            None => {
                return Err(MathError::NumericOverflow);
            }
        };
        if sn == 0 {
            // A zero branch value: the extraction formula would divide by
            // zero on it.
            proof {
                assert((0int) * 0 == 0) by (nonlinear_arith);
            }
            return Err(MathError::NumericOverflow);
        }
        proof {
            lemma_mul_bound(sn as int, matrix@.d, 0x4_0000, 0x7fff_ffff);
        }
        let dd: i64 = 2 * (sn * (matrix.den as i64));
        let (nx, ny, nz, nw): (i64, i64, i64, i64) = if tr >= 0 {
            (
                mul_sd(matrix.m21 as i64 - matrix.m12 as i64, sd),
                mul_sd(matrix.m02 as i64 - matrix.m20 as i64, sd),
                mul_sd(matrix.m10 as i64 - matrix.m01 as i64, sd),
                mul_sd(v, sd),
            )
        } else if matrix.m00 >= matrix.m11 && matrix.m00 >= matrix.m22 {
            (
                mul_sd(v, sd),
                mul_sd(matrix.m01 as i64 + matrix.m10 as i64, sd),
                mul_sd(matrix.m20 as i64 + matrix.m02 as i64, sd),
                mul_sd(matrix.m21 as i64 - matrix.m12 as i64, sd),
            )
        } else if matrix.m11 >= matrix.m22 {
            (
                mul_sd(matrix.m01 as i64 + matrix.m10 as i64, sd),
                mul_sd(v, sd),
                mul_sd(matrix.m12 as i64 + matrix.m21 as i64, sd),
                mul_sd(matrix.m02 as i64 - matrix.m20 as i64, sd),
            )
        } else {
            (
                mul_sd(matrix.m20 as i64 + matrix.m02 as i64, sd),
                mul_sd(matrix.m12 as i64 + matrix.m21 as i64, sd),
                mul_sd(v, sd),
                mul_sd(matrix.m10 as i64 - matrix.m01 as i64, sd),
            )
        };
        proof {
            assert((2 * (sn as int)) * matrix@.d == 2 * ((sn as int) * matrix@.d))
                by (nonlinear_arith);
            assert(q_extracted(matrix@) == (QuatModel {
                x: nx as int, y: ny as int, z: nz as int, w: nw as int, d: dd as int }));
            assert(q_branch_val(matrix@) > 0) by (nonlinear_arith)
                requires
                    q_branch_val(matrix@) == (sn as int) * (sn as int),
                    sn as int > 0;
        }
        match Quaternion::fit(nx as i128, ny as i128, nz as i128, nw as i128, dd as i128) {
            Ok(q) => {
                *self = q;
                Ok(())
            }
            Err(e) => Err(e),
        }
    }

    /// Sets the quaternion from an axis-angle rotation: the Rodrigues block
    /// of the axis and the angle's exact cosine and sine is built, read back
    /// as a quaternion, and normalized. Fails, leaving the value unchanged,
    /// when an exact square root or representation is unavailable.
    pub fn setToAxisAngle(&mut self, axis: &Vector3, c: &Rat, s: &Rat) -> (r: Result<(), MathError>)
        requires
            axis.wf(),
            c.wf() && rat_small(c@),
            s.wf() && rat_small(s@),
        ensures
            r is Ok ==> final(self).wf()
                && q_normalized_to(q_extracted(m44_rodrigues(axis@, c@, s@)), final(self)@),
            (r is Ok) == (m44_fits(m44_rodrigues(axis@, c@, s@))
                && q_extractable(m44_rodrigues(axis@, c@, s@))
                && q_normalizable(q_extracted(m44_rodrigues(axis@, c@, s@)))),
            r is Err ==> *final(self) == *old(self),
            r matches Err(e) ==> e == MathError::NumericOverflow,
    {
        let ghost rod: Mat44Model = m44_rodrigues(axis@, c@, s@);
        let mut rot: Matrix44 = Default::default();
        proof {
            lemma_mul_identity_left_exact(rod);
        }
        match rot.rotate(axis, c, s) {
            Ok(()) => {
                proof {
                    assert(rot@ == rod);
                }
            }
            Err(e) => {
                return Err(e);
            }
        }
        let mut cand: Quaternion = *self;
        match cand.setMatrix(&rot) {
            Ok(()) => {}
            Err(e) => {
                return Err(e);
            }
        }
        match cand.normalize() {
            Ok(()) => {
                *self = cand;
                Ok(())
            }
            Err(e) => Err(e),
        }
    }

    /// The Hamilton product, exactly.
    pub fn mul(q1: &Quaternion, q2: &Quaternion) -> (r: Result<Quaternion, MathError>)
        requires
            q1.wf(),
            q2.wf(),
        ensures
            r matches Ok(q) ==> q.wf() && q@ == q_mul(q1@, q2@),
            (r is Ok) == q_fits(q_mul(q1@, q2@)),
            r matches Err(e) ==> e == MathError::NumericOverflow,
    {
        let x: i128 = wmul32(q1.x, q2.w) as i128 + wmul32(q1.w, q2.x) as i128
            + wmul32(q1.y, q2.z) as i128 - wmul32(q1.z, q2.y) as i128;
        let y: i128 = wmul32(q1.y, q2.w) as i128 + wmul32(q1.w, q2.y) as i128
            + wmul32(q1.z, q2.x) as i128 - wmul32(q1.x, q2.z) as i128;
        let z: i128 = wmul32(q1.z, q2.w) as i128 + wmul32(q1.w, q2.z) as i128
            + wmul32(q1.x, q2.y) as i128 - wmul32(q1.y, q2.x) as i128;
        let w: i128 = wmul32(q1.w, q2.w) as i128 - wmul32(q1.x, q2.x) as i128
            - wmul32(q1.y, q2.y) as i128 - wmul32(q1.z, q2.z) as i128;
        let d: i128 = wmul32(q1.den, q2.den) as i128;
        if 0 < d && d <= 0x7fff_ffff && -0x7fff_ffff <= x && x <= 0x7fff_ffff
            && -0x7fff_ffff <= y && y <= 0x7fff_ffff && -0x7fff_ffff <= z && z <= 0x7fff_ffff
            && -0x7fff_ffff <= w && w <= 0x7fff_ffff {
            Ok(Quaternion { x: x as i32, y: y as i32, z: z as i32, w: w as i32, den: d as i32 })
        } else {
            Err(MathError::NumericOverflow)
        }
    }

    /// Rotates a 3-vector: defined as converting the quaternion to its
    /// matrix and transforming the vector as a direction (homogeneous
    /// weight zero), exactly as chaining `toMatrix` and `trans` would.
    pub fn mulVector3(q1: &Quaternion, rhs: &Vector3) -> (r: Result<Vector3, MathError>)
        requires
            q1.wf(),
            rhs.wf(),
        ensures
            r matches Ok(v) ==> v.wf()
                && v@ == v4_drop_w(m44_trans(q_to_matrix(q1@), v3_direction(rhs@))),
            (r is Ok) == (m44_fits(q_to_matrix(q1@))
                && v4_fits(m44_trans(q_to_matrix(q1@), v3_direction(rhs@)))),
            r matches Err(e) ==> e == MathError::NumericOverflow,
    {
        let m: Matrix44 = match q1.toMatrix() {
            Ok(m) => m,
            Err(e) => {
                return Err(e);
            }
        };
        let hv: Vector4 = Vector4 { x: rhs.x, y: rhs.y, z: rhs.z, w: 0, den: rhs.den };
        match Matrix44::trans(&m, &hv) {
            Ok(t) => Ok(Vector3 { x: t.x, y: t.y, z: t.z, den: t.den }),
            Err(e) => Err(e),
        }
    }

    /// Rotates a homogeneous 4-vector: the quaternion's matrix applied to
    /// the vector, exactly as chaining `toMatrix` and `trans` would.
    pub fn mulVector4(q1: &Quaternion, rhs: &Vector4) -> (r: Result<Vector4, MathError>)
        requires
            q1.wf(),
            rhs.wf(),
        ensures
            r matches Ok(v) ==> v.wf() && v@ == m44_trans(q_to_matrix(q1@), rhs@),
            (r is Ok) == (m44_fits(q_to_matrix(q1@))
                && v4_fits(m44_trans(q_to_matrix(q1@), rhs@))),
            r matches Err(e) ==> e == MathError::NumericOverflow,
    {
        let m: Matrix44 = match q1.toMatrix() {
            Ok(m) => m,
            Err(e) => {
                return Err(e);
            }
        };
        Matrix44::trans(&m, rhs)
    }

    /// The shortest-path linear blend of two rotations, renormalized: the
    /// second operand is negated when the dot product is negative, the blend
    /// is linear, and the result is scaled back to unit length. This is
    /// deliberately a blend-and-renormalize approximation, not a great-circle
    /// interpolation; a blend of exactly opposite rotations can cancel to
    /// zero, which is returned unnormalized.
    pub fn slerp(a: &Quaternion, b: &Quaternion, blend: &Rat) -> (r: Result<Quaternion, MathError>)
        requires
            a.wf(),
            b.wf(),
            blend.wf() && rat_small(blend@),
        ensures
            r matches Ok(q) ==> q.wf() && q_normalized_to(q_slerp_blend(a@, b@, blend@), q@),
            r matches Ok(q) ==> q_len2(q_slerp_blend(a@, b@, blend@)).n != 0 ==> q_unit(q@),
            (r is Ok) == (q_fits(q_slerp_blend(a@, b@, blend@))
                && q_normalizable(q_slerp_blend(a@, b@, blend@))),
            r matches Err(e) ==> e == MathError::NumericOverflow,
    {
        let dot: i128 = wmul32(a.w, b.w) as i128 + wmul32(a.x, b.x) as i128
            + wmul32(a.y, b.y) as i128 + wmul32(a.z, b.z) as i128;
        let bb: Quaternion = if dot < 0 {
            let mut n: Quaternion = *b;
            n.negate();
            n
        } else {
            *b
        };
        let cand: Quaternion = match Quaternion::fit(
            blend_comp(a.x, a.den, bb.x, bb.den, blend),
            blend_comp(a.y, a.den, bb.y, bb.den, blend),
            blend_comp(a.z, a.den, bb.z, bb.den, blend),
            blend_comp(a.w, a.den, bb.w, bb.den, blend),
            blend_den(a.den, bb.den, blend),
        ) {
            Ok(q) => q,
            Err(e) => {
                return Err(e);
            }
        };
        let mut result: Quaternion = cand;
        match result.normalize() {
            Ok(()) => Ok(result),
            Err(e) => Err(e),
        }
    }

    /// Orients the quaternion so that `f` becomes the forward axis and `u`
    /// the upward axis: both inputs are normalized, the right axis is their
    /// cross product, the three make the columns of a rotation matrix, and
    /// the quaternion is read back from it and normalized. Fails, leaving
    /// the quaternion unchanged, on zero inputs or when an exact square
    /// root or representation is unavailable.
    pub fn lookRotation(&mut self, f: &Vector3, u: &Vector3) -> (r: Result<(), MathError>)
        requires
            f.wf(),
            u.wf(),
        ensures
            r is Ok ==> final(self).wf()
                && q_normalized_to(q_extracted(look_basis(f@, u@)), final(self)@),
            (r is Ok) == look_succeeds(f@, u@),
            r is Err ==> *final(self) == *old(self),
            v3_len2(f@).n == 0 ==> (r matches Err(e) ==> e == MathError::DegenerateGeometry),
            v3_len2(f@).n != 0 && v3_len2(u@).n != 0
                ==> (r matches Err(e) ==> e == MathError::NumericOverflow),
            r matches Err(e) ==> (e == MathError::DegenerateGeometry
                ==> v3_len2(f@).n == 0 || v3_len2(u@).n == 0),
    {
        let forward: Vector3 = match Vector3::getNormalized(f) {
            Ok(v) => v,
            Err(e) => {
                proof {
                    lemma_unrepresentable_root(v3_len2(f@).n);
                }
                return Err(e);
            }
        };
        proof {
            assert(v3_len2(forward@).n == v3_len2(f@).n);
            assert(forward@.d * forward@.d == v3_len2(f@).n);
            lemma_root_unique(v3_len2(f@).n, forward@.d);
        }
        let up: Vector3 = match Vector3::getNormalized(u) {
            Ok(v) => v,
            Err(e) => {
                proof {
                    lemma_unrepresentable_root(v3_len2(u@).n);
                }
                return Err(e);
            }
        };
        proof {
            assert(v3_len2(up@).n == v3_len2(u@).n);
            assert(up@.d * up@.d == v3_len2(u@).n);
            lemma_root_unique(v3_len2(u@).n, up@.d);
        }
        let ghost basis: Mat44Model = look_basis(f@, u@);
        let right: Vector3 = match Vector3::cross(&forward, &up) {
            Ok(v) => v,
            Err(e) => {
                proof {
                    assert(!m44_fits(basis));
                }
                return Err(e);
            }
        };
        let rot: Matrix44 = match Matrix44::fit(
            right.x as i128,
            wmul32(up.x, forward.den) as i128,
            wmul32(forward.x, up.den) as i128,
            0,
            right.y as i128,
            wmul32(up.y, forward.den) as i128,
            wmul32(forward.y, up.den) as i128,
            0,
            right.z as i128,
            wmul32(up.z, forward.den) as i128,
            wmul32(forward.z, up.den) as i128,
            0,
            0,
            0,
            0,
            right.den as i128,
            right.den as i128,
        ) {
            Ok(m) => {
                proof {
                    assert(m@ == basis);
                }
                m
            }
            Err(e) => {
                return Err(e);
            }
        };
        let mut cand: Quaternion = *self;
        match cand.setMatrix(&rot) {
            Ok(()) => {}
            Err(e) => {
                return Err(e);
            }
        }
        match cand.normalize() {
            Ok(()) => {
                *self = cand;
                Ok(())
            }
            Err(e) => Err(e),
        }
    }

    fn fit(x: i128, y: i128, z: i128, w: i128, d: i128) -> (r: Result<Quaternion, MathError>)
        ensures
            r matches Ok(q) ==> q.wf()
                && q@ == (QuatModel {
                    x: x as int, y: y as int, z: z as int, w: w as int, d: d as int }),
            (r is Ok) == q_fits(QuatModel {
                x: x as int, y: y as int, z: z as int, w: w as int, d: d as int }),
            r matches Err(e) ==> e == MathError::NumericOverflow,
    {
        if 0 < d && d <= 0x7fff_ffff && -0x7fff_ffff <= x && x <= 0x7fff_ffff
            && -0x7fff_ffff <= y && y <= 0x7fff_ffff && -0x7fff_ffff <= z && z <= 0x7fff_ffff
            && -0x7fff_ffff <= w && w <= 0x7fff_ffff {
            Ok(Quaternion { x: x as i32, y: y as i32, z: z as i32, w: w as i32, den: d as i32 })
        } else {
            Err(MathError::NumericOverflow)
        }
    }
}

/// Flipping the signs of a component and the denominator keeps the value.
proof fn lemma_flip(n: int, d: int)
    by (nonlinear_arith)
    ensures
        ratio_eq(Ratio { n: -n, d: -d }, Ratio { n: n, d: d }),
{
}

/// A small product `a * sd` that stays within the wide integer.
fn mul_sd(a: i64, sd: i64) -> (r: i64)
    requires
        -0x2_0000_0000 <= a as int <= 0x2_0000_0000,
        0 < sd <= 0xffff,
    ensures
        r as int == (a as int) * (sd as int),
{
    proof {
        lemma_mul_bound(a as int, sd as int, 0x2_0000_0000, 0xffff);
    }
    a * sd
}

/// The sum of three diagonal entries, widened.
fn diag_sum(a: i32, b: i32, c: i32) -> (r: i64)
    ensures
        r as int == a as int + b as int + c as int,
{
    a as i64 + b as i64 + c as i64
}

/// When no representable positive root exists, the canonical root is not
/// representable either: turns a failed normalization into the negation of
/// the canonical-root conjuncts.
proof fn lemma_unrepresentable_root(v: int)
    requires
        !(v != 0 && (exists|s: int| 0 < s <= 0x7fff_ffff && #[trigger] (s * s) == v)),
    ensures
        !(v != 0 && has_root(v) && root_of(v) <= 0x7fff_ffff),
{
    if v != 0 && has_root(v) && root_of(v) <= 0x7fff_ffff {
        let s0: int = root_of(v);
        assert(0 <= s0 && s0 * s0 == v);
        if s0 == 0 {
            assert((0int) * 0 == 0) by (nonlinear_arith);
        }
        assert(0 < s0 <= 0x7fff_ffff && s0 * s0 == v);
    }
}

/// One blended component numerator:
/// `(t.d - t.n) * ax * bd + t.n * bx * ad`.
fn blend_comp(ax: i32, ad: i32, bx: i32, bd: i32, t: &Rat) -> (r: i128)
    requires
        t.wf() && rat_small(t@),
    ensures
        r as int == (t@.d - t@.n) * (ax as int) * (bd as int) + t@.n * (bx as int) * (ad as int),
{
    let ti: i64 = t.den - t.num;
    proof {
        lemma_mul_bound(ti as int, ax as int, 0x1_0000_0000, 0x8000_0000);
        lemma_mul_bound(ti as int * (ax as int), bd as int, 0x8_0000_0000_0000_0000, 0x8000_0000);
        lemma_mul_bound(t@.n, bx as int, 0x7fff_ffff, 0x8000_0000);
        lemma_mul_bound(t@.n * (bx as int), ad as int, 0x4000_0000_0000_0000, 0x8000_0000);
    }
    let p1: i128 = ((ti as i128) * (ax as i128)) * (bd as i128);
    let p2: i128 = ((t.num as i128) * (bx as i128)) * (ad as i128);
    p1 + p2
}

/// The blended denominator `t.d * a.d * b.d`.
fn blend_den(ad: i32, bd: i32, t: &Rat) -> (r: i128)
    requires
        t.wf() && rat_small(t@),
    ensures
        r as int == t@.d * (ad as int) * (bd as int),
{
    proof {
        lemma_mul_bound(t@.d, ad as int, 0x7fff_ffff, 0x8000_0000);
        lemma_mul_bound(t@.d * (ad as int), bd as int, 0x4000_0000_0000_0000, 0x8000_0000);
    }
    ((t.den as i128) * (ad as i128)) * (bd as i128)
}

// ------------------------------------------------------------------- laws

/// One component of the round-trip identity: reading the matrix of a
/// quaternion back yields the original component, scaled by four times the
/// pivot component and the squared denominator.
proof fn lemma_trip_comp(a: int, piv: int, d: int)
    by (nonlinear_arith)
    ensures
        ((4 * (a * piv)) * d) * d == a * ((2 * (2 * piv)) * (d * d)),
        ((4 * (a * (-piv))) * d) * d == (-a) * ((2 * (2 * piv)) * (d * d)),
{
}

/// Converting a unit quaternion to its rotation matrix and reading a
/// quaternion back reproduces the original up to sign: the branch value and
/// the matrix denominator have exact square roots, and with them the
/// extracted quaternion equals `q` or `-q` componentwise.
pub proof fn lemma_matrix_round_trip(q: QuatModel)
    requires
        q.d > 0,
        q.x * q.x + q.y * q.y + q.z * q.z + q.w * q.w == q.d * q.d,
    ensures
        has_root(q_branch_val(q_to_matrix(q))),
        q_branch_val(q_to_matrix(q)) > 0,
        has_root(q_to_matrix(q).d),
        q_veq(q_extracted(q_to_matrix(q)), q) || q_veq(q_extracted(q_to_matrix(q)), q_neg(q)),
{
    let m = q_to_matrix(q);
    let x: int = q.x;
    let y: int = q.y;
    let z: int = q.z;
    let w: int = q.w;
    let d: int = q.d;
    let sd: int = d;
    assert(d * d > 0) by (nonlinear_arith)
        requires d > 0;
    lemma_root_unique(m.d, d);
    let tr: int = m.m00 + m.m11 + m.m22;
    assert(tr == 4 * (w * w) - d * d);
    if tr >= 0 {
        // Pivot component: w. The branch value is 4 w^2.
        assert(q_branch_val(m) == 4 * (w * w));
        assert(w != 0) by (nonlinear_arith)
            requires 4 * (w * w) >= d * d && d * d > 0;
        let piv: int = if w > 0 { w } else { -w };
        let sn: int = 2 * piv;
        assert(sn * sn == 4 * (w * w)) by (nonlinear_arith)
            requires sn == 2 * piv && (piv == w || piv == -w);
        lemma_root_unique(q_branch_val(m), sn);
        assert(q_branch_val(m) > 0);
        let r = q_from_rotation(m, sn, sd);
        assert(q_extracted(m) == r);
        assert(r.x == (4 * (x * w)) * d && r.y == (4 * (y * w)) * d
            && r.z == (4 * (z * w)) * d && r.w == (4 * (w * w)) * d
            && r.d == (2 * (2 * piv)) * (d * d));
        lemma_trip_comp(x, piv, d);
        lemma_trip_comp(y, piv, d);
        lemma_trip_comp(z, piv, d);
        lemma_trip_comp(w, piv, d);
        if w > 0 {
            assert(q_veq(r, q));
        } else {
            assert(x * w == x * (-piv)) by (nonlinear_arith)
                requires w == -piv;
            assert(y * w == y * (-piv)) by (nonlinear_arith)
                requires w == -piv;
            assert(z * w == z * (-piv)) by (nonlinear_arith)
                requires w == -piv;
            assert(w * w == w * (-piv)) by (nonlinear_arith)
                requires w == -piv;
            assert(q_veq(r, q_neg(q)));
        }
    } else if m.m00 >= m.m11 && m.m00 >= m.m22 {
        // Pivot component: x. The branch value is 4 x^2.
        assert(q_branch_val(m) == 4 * (x * x));
        assert(q_branch_val(m) > 0);
        assert(x != 0) by (nonlinear_arith)
            requires 4 * (x * x) > 0;
        let piv: int = if x > 0 { x } else { -x };
        let sn: int = 2 * piv;
        assert(sn * sn == 4 * (x * x)) by (nonlinear_arith)
            requires sn == 2 * piv && (piv == x || piv == -x);
        lemma_root_unique(q_branch_val(m), sn);
        assert(q_branch_val(m) > 0);
        let r = q_from_rotation(m, sn, sd);
        assert(q_extracted(m) == r);
        assert(r.x == (4 * (x * x)) * d && r.y == (4 * (y * x)) * d
            && r.z == (4 * (z * x)) * d && r.w == (4 * (w * x)) * d
            && r.d == (2 * (2 * piv)) * (d * d));
        lemma_trip_comp(x, piv, d);
        lemma_trip_comp(y, piv, d);
        lemma_trip_comp(z, piv, d);
        lemma_trip_comp(w, piv, d);
        if x > 0 {
            assert(q_veq(r, q));
        } else {
            assert(x * x == x * (-piv)) by (nonlinear_arith)
                requires x == -piv;
            assert(y * x == y * (-piv)) by (nonlinear_arith)
                requires x == -piv;
            assert(z * x == z * (-piv)) by (nonlinear_arith)
                requires x == -piv;
            assert(w * x == w * (-piv)) by (nonlinear_arith)
                requires x == -piv;
            assert(q_veq(r, q_neg(q)));
        }
    } else if m.m11 >= m.m22 {
        // Pivot component: y. The branch value is 4 y^2.
        assert(q_branch_val(m) == 4 * (y * y));
        assert(q_branch_val(m) > 0);
        assert(y != 0) by (nonlinear_arith)
            requires 4 * (y * y) > 0;
        let piv: int = if y > 0 { y } else { -y };
        let sn: int = 2 * piv;
        assert(sn * sn == 4 * (y * y)) by (nonlinear_arith)
            requires sn == 2 * piv && (piv == y || piv == -y);
        lemma_root_unique(q_branch_val(m), sn);
        assert(q_branch_val(m) > 0);
        let r = q_from_rotation(m, sn, sd);
        assert(q_extracted(m) == r);
        assert(r.x == (4 * (x * y)) * d && r.y == (4 * (y * y)) * d
            && r.z == (4 * (z * y)) * d && r.w == (4 * (w * y)) * d
            && r.d == (2 * (2 * piv)) * (d * d));
        lemma_trip_comp(x, piv, d);
        lemma_trip_comp(y, piv, d);
        lemma_trip_comp(z, piv, d);
        lemma_trip_comp(w, piv, d);
        if y > 0 {
            assert(q_veq(r, q));
        } else {
            assert(x * y == x * (-piv)) by (nonlinear_arith)
                requires y == -piv;
            assert(y * y == y * (-piv)) by (nonlinear_arith)
                requires y == -piv;
            assert(z * y == z * (-piv)) by (nonlinear_arith)
                requires y == -piv;
            assert(w * y == w * (-piv)) by (nonlinear_arith)
                requires y == -piv;
            assert(q_veq(r, q_neg(q)));
        }
    } else {
        // Pivot component: z. The branch value is 4 z^2.
        assert(q_branch_val(m) == 4 * (z * z));
        assert(q_branch_val(m) > 0);
        assert(z != 0) by (nonlinear_arith)
            requires 4 * (z * z) > 0;
        let piv: int = if z > 0 { z } else { -z };
        let sn: int = 2 * piv;
        assert(sn * sn == 4 * (z * z)) by (nonlinear_arith)
            requires sn == 2 * piv && (piv == z || piv == -z);
        lemma_root_unique(q_branch_val(m), sn);
        assert(q_branch_val(m) > 0);
        let r = q_from_rotation(m, sn, sd);
        assert(q_extracted(m) == r);
        assert(r.x == (4 * (x * z)) * d);
        assert(r.y == (4 * (y * z)) * d);
        assert(r.z == (4 * (z * z)) * d);
        assert(r.w == (4 * (z * w)) * d);
        assert((4 * (z * w)) * d == (4 * (w * z)) * d) by (nonlinear_arith);
        assert(r.w == (4 * (w * z)) * d);
        assert(r.d == (2 * (2 * piv)) * (d * d));
        lemma_trip_comp(x, piv, d);
        lemma_trip_comp(y, piv, d);
        lemma_trip_comp(z, piv, d);
        lemma_trip_comp(w, piv, d);
        if z > 0 {
            assert(q_veq(r, q));
        } else {
            assert(x * z == x * (-piv)) by (nonlinear_arith)
                requires z == -piv;
            assert(y * z == y * (-piv)) by (nonlinear_arith)
                requires z == -piv;
            assert(z * z == z * (-piv)) by (nonlinear_arith)
                requires z == -piv;
            assert(w * z == w * (-piv)) by (nonlinear_arith)
                requires z == -piv;
            assert(q_veq(r, q_neg(q)));
        }
    }
}

} // verus!
