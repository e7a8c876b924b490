//! Matrix and quaternion behaviour: identities, inverses, the composable
//! transforms, and the rotation round trips.

use softrast::rat::{Rat, MathError};
use softrast::vectors::Vector3;
use softrast::matrix22::Matrix22;
use softrast::matrix33::Matrix33;
use softrast::matrix44::Matrix44;
use softrast::quaternion::Quaternion;

fn rat(n: i64, d: i64) -> Rat {
    Rat::new(n, d).unwrap()
}

fn v3(x: i32, y: i32, z: i32, den: i32) -> Vector3 {
    Vector3::new(x, y, z, den).unwrap()
}

/// Two stored ratios denote the same value.
fn same_ratio(n1: i32, d1: i32, n2: i32, d2: i32) -> bool {
    (n1 as i64) * (d2 as i64) == (n2 as i64) * (d1 as i64)
}

#[test]
fn matrix22_identity_absorbs() {
    let m = Matrix22 { m00: 1, m01: 2, m10: 3, m11: 4, den: 5 };
    let id: Matrix22 = Default::default();
    let mi = Matrix22::mul(&m, &id).unwrap();
    assert!(same_ratio(mi.m00, mi.den, m.m00, m.den));
    assert!(same_ratio(mi.m01, mi.den, m.m01, m.den));
    assert!(same_ratio(mi.m10, mi.den, m.m10, m.den));
    assert!(same_ratio(mi.m11, mi.den, m.m11, m.den));
    let im = Matrix22::mul(&id, &m).unwrap();
    assert!(same_ratio(im.m00, im.den, m.m00, m.den));
    assert!(same_ratio(im.m11, im.den, m.m11, m.den));
}

#[test]
fn matrix22_det_and_invert() {
    let mut m = Matrix22 { m00: 1, m01: 2, m10: 3, m11: 4, den: 1 };
    assert!(m.det().eq_value(&rat(-2, 1)));
    m.invert().unwrap();
    // The inverse of [[1,2],[3,4]] is [[-2, 1], [3/2, -1/2]].
    assert!(same_ratio(m.m00, m.den, -2, 1));
    assert!(same_ratio(m.m01, m.den, 1, 1));
    assert!(same_ratio(m.m10, m.den, 3, 2));
    assert!(same_ratio(m.m11, m.den, -1, 2));
}

#[test]
fn matrix22_invert_twice_restores() {
    let orig = Matrix22 { m00: 1, m01: 2, m10: 3, m11: 4, den: 2 };
    let mut m = orig;
    m.invert().unwrap();
    m.invert().unwrap();
    assert!(same_ratio(m.m00, m.den, orig.m00, orig.den));
    assert!(same_ratio(m.m01, m.den, orig.m01, orig.den));
    assert!(same_ratio(m.m10, m.den, orig.m10, orig.den));
    assert!(same_ratio(m.m11, m.den, orig.m11, orig.den));
}

#[test]
fn matrix22_singular_invert_is_inert() {
    let mut m = Matrix22 { m00: 1, m01: 2, m10: 2, m11: 4, den: 1 };
    assert_eq!(m.invert(), Err(MathError::DegenerateGeometry));
    assert_eq!((m.m00, m.m01, m.m10, m.m11, m.den), (1, 2, 2, 4, 1));
}

#[test]
fn matrix22_add_overflow_reported() {
    let m = Matrix22 { m00: 2000000000, m01: 0, m10: 0, m11: 0, den: 1 };
    assert_eq!(Matrix22::add(&m, &m), Err(MathError::NumericOverflow));
}

#[test]
fn matrix33_identity_and_det() {
    let m = Matrix33 {
        m00: 2, m01: 0, m02: 0,
        m10: 0, m11: 3, m12: 0,
        m20: 0, m21: 0, m22: 4,
        den: 1,
    };
    let id: Matrix33 = Default::default();
    let mi = Matrix33::mul(&m, &id).unwrap();
    assert!(same_ratio(mi.m00, mi.den, 2, 1));
    assert!(same_ratio(mi.m22, mi.den, 4, 1));
    assert!(m.det().unwrap().eq_value(&rat(24, 1)));
}

#[test]
fn matrix33_invert_diagonal() {
    let mut m = Matrix33 {
        m00: 2, m01: 0, m02: 0,
        m10: 0, m11: 2, m12: 0,
        m20: 0, m21: 0, m22: 2,
        den: 1,
    };
    m.invert().unwrap();
    assert!(same_ratio(m.m00, m.den, 1, 2));
    assert!(same_ratio(m.m11, m.den, 1, 2));
    assert!(same_ratio(m.m22, m.den, 1, 2));
    assert!(same_ratio(m.m01, m.den, 0, 1));
}

#[test]
fn matrix33_transpose_and_trans() {
    let mut m = Matrix33 {
        m00: 1, m01: 2, m02: 3,
        m10: 4, m11: 5, m12: 6,
        m20: 7, m21: 8, m22: 9,
        den: 1,
    };
    m.transpose();
    assert_eq!((m.m01, m.m02, m.m10, m.m12, m.m20, m.m21), (4, 7, 2, 8, 3, 6));
    let id: Matrix33 = Default::default();
    let v = Matrix33::trans(&id, &v3(9, 8, 7, 2)).unwrap();
    assert_eq!((v.x, v.y, v.z, v.den), (9, 8, 7, 2));
}

#[test]
fn matrix44_identity_det_invert() {
    let id: Matrix44 = Default::default();
    assert!(id.det().unwrap().eq_value(&Rat::one()));
    let mut m: Matrix44 = Default::default();
    m.m00 = 2;
    m.m11 = 2;
    m.m22 = 2;
    m.m33 = 2;
    assert!(m.det().unwrap().eq_value(&rat(16, 1)));
    m.invert().unwrap();
    assert!(same_ratio(m.m00, m.den, 1, 2));
    assert!(same_ratio(m.m33, m.den, 1, 2));
    assert!(same_ratio(m.m01, m.den, 0, 1));
}

#[test]
fn matrix44_singular_invert_is_inert() {
    let mut m: Matrix44 = Default::default();
    m.m00 = 0;
    assert_eq!(m.invert(), Err(MathError::DegenerateGeometry));
    assert_eq!(m.m11, 1);
}

#[test]
fn matrix44_scale_rows() {
    let mut m: Matrix44 = Default::default();
    m.scale(&v3(4, 1, 1, 1)).unwrap();
    assert!(same_ratio(m.m00, m.den, 4, 1));
    assert!(same_ratio(m.m11, m.den, 1, 1));
    assert!(same_ratio(m.m33, m.den, 1, 1));
}

#[test]
fn matrix44_translate_accumulates_in_last_row() {
    let mut m: Matrix44 = Default::default();
    m.translate(&v3(0, 20, 0, 1)).unwrap();
    assert!(same_ratio(m.m30, m.den, 0, 1));
    assert!(same_ratio(m.m31, m.den, 20, 1));
    assert!(same_ratio(m.m32, m.den, 0, 1));
    assert!(same_ratio(m.m33, m.den, 1, 1));
    // Translation expressed in the transformed basis: scale first, and the
    // same translation call moves twice as far on the scaled axis.
    let mut n: Matrix44 = Default::default();
    n.scale(&v3(1, 2, 1, 1)).unwrap();
    n.translate(&v3(0, 20, 0, 1)).unwrap();
    assert!(same_ratio(n.m31, n.den, 40, 1));
}

#[test]
fn matrix44_rotate_quarter_turn_about_z() {
    // cos = 3/5, sin = 4/5: an exact point on the unit circle.
    let mut m: Matrix44 = Default::default();
    m.rotate(&v3(0, 0, 1, 1), &rat(3, 5), &rat(4, 5)).unwrap();
    assert!(same_ratio(m.m00, m.den, 3, 5));
    assert!(same_ratio(m.m01, m.den, 4, 5));
    assert!(same_ratio(m.m10, m.den, -4, 5));
    assert!(same_ratio(m.m11, m.den, 3, 5));
    assert!(same_ratio(m.m22, m.den, 1, 1));
    assert!(same_ratio(m.m33, m.den, 1, 1));
}

#[test]
fn matrix44_rotate_and_back_restores() {
    // The round trip of rotation: rotating by the opposite angle composes
    // back to the starting transform.
    let mut m: Matrix44 = Default::default();
    m.scale(&v3(2, 3, 4, 1)).unwrap();
    let before = m;
    m.rotate(&v3(0, 0, 1, 1), &rat(3, 5), &rat(4, 5)).unwrap();
    m.rotate(&v3(0, 0, 1, 1), &rat(3, 5), &rat(-4, 5)).unwrap();
    assert!(same_ratio(m.m00, m.den, before.m00, before.den));
    assert!(same_ratio(m.m01, m.den, before.m01, before.den));
    assert!(same_ratio(m.m11, m.den, before.m11, before.den));
    assert!(same_ratio(m.m22, m.den, before.m22, before.den));
    assert!(same_ratio(m.m30, m.den, before.m30, before.den));
    assert!(same_ratio(m.m33, m.den, before.m33, before.den));
}

#[test]
fn matrix44_transpose_swaps() {
    let mut m: Matrix44 = Default::default();
    m.m01 = 7;
    m.transpose();
    assert_eq!((m.m01, m.m10), (0, 7));
}

#[test]
fn quaternion_default_is_identity_rotation() {
    let q: Quaternion = Default::default();
    assert_eq!((q.x, q.y, q.z, q.w, q.den), (0, 0, 0, 1, 1));
    let m = q.toMatrix().unwrap();
    assert!(same_ratio(m.m00, m.den, 1, 1));
    assert!(same_ratio(m.m11, m.den, 1, 1));
    assert!(same_ratio(m.m22, m.den, 1, 1));
    assert!(same_ratio(m.m01, m.den, 0, 1));
}

#[test]
fn quaternion_matrix_round_trip_up_to_sign() {
    // A unit quaternion with rational components survives the conversion to
    // its rotation matrix and back, up to overall sign.
    let q = Quaternion::new(1, 1, 1, 1, 2).unwrap();
    let m = q.toMatrix().unwrap();
    let mut back: Quaternion = Default::default();
    back.setMatrix(&m).unwrap();
    let same = same_ratio(back.x, back.den, q.x, q.den)
        && same_ratio(back.y, back.den, q.y, q.den)
        && same_ratio(back.z, back.den, q.z, q.den)
        && same_ratio(back.w, back.den, q.w, q.den);
    let negated = same_ratio(back.x, back.den, -q.x, q.den)
        && same_ratio(back.y, back.den, -q.y, q.den)
        && same_ratio(back.z, back.den, -q.z, q.den)
        && same_ratio(back.w, back.den, -q.w, q.den);
    assert!(same || negated);
}

#[test]
fn quaternion_round_trip_negative_trace_branch() {
    // A rotation by half a turn about an axis mostly along x: the trace is
    // negative and the dominant-diagonal branch runs.
    let q = Quaternion::new(3, 4, 0, 0, 5).unwrap();
    let m = q.toMatrix().unwrap();
    let mut back: Quaternion = Default::default();
    back.setMatrix(&m).unwrap();
    let same = same_ratio(back.x, back.den, q.x, q.den)
        && same_ratio(back.y, back.den, q.y, q.den)
        && same_ratio(back.z, back.den, q.z, q.den)
        && same_ratio(back.w, back.den, q.w, q.den);
    let negated = same_ratio(back.x, back.den, -q.x, q.den)
        && same_ratio(back.y, back.den, -q.y, q.den)
        && same_ratio(back.z, back.den, -q.z, q.den)
        && same_ratio(back.w, back.den, -q.w, q.den);
    assert!(same || negated);
}

#[test]
fn quaternion_hamilton_product() {
    let i = Quaternion::new(1, 0, 0, 0, 1).unwrap();
    let j = Quaternion::new(0, 1, 0, 0, 1).unwrap();
    let k = Quaternion::mul(&i, &j).unwrap();
    assert_eq!((k.x, k.y, k.z, k.w, k.den), (0, 0, 1, 0, 1));
}

#[test]
fn quaternion_normalize_and_zero_no_op() {
    let mut q = Quaternion::new(3, 0, 0, 4, 7).unwrap();
    q.normalize().unwrap();
    assert_eq!((q.x, q.w, q.den), (3, 4, 5));
    let mut z = Quaternion::new(0, 0, 0, 0, 2).unwrap();
    z.normalize().unwrap();
    assert_eq!((z.x, z.y, z.z, z.w, z.den), (0, 0, 0, 0, 2));
}

#[test]
fn quaternion_negate() {
    let mut q = Quaternion::new(1, -2, 3, -4, 5).unwrap();
    q.negate();
    assert_eq!((q.x, q.y, q.z, q.w, q.den), (-1, 2, -3, 4, 5));
}

#[test]
fn quaternion_slerp_endpoints() {
    let a = Quaternion::new(0, 0, 0, 2, 1).unwrap();
    let b: Quaternion = Default::default();
    let r = Quaternion::slerp(&a, &b, &Rat::zero()).unwrap();
    assert!(same_ratio(r.w, r.den, 1, 1));
    assert!(same_ratio(r.x, r.den, 0, 1));
    let r1 = Quaternion::slerp(&a, &b, &Rat::one()).unwrap();
    assert!(same_ratio(r1.w, r1.den, 1, 1));
}

#[test]
fn quaternion_slerp_takes_shortest_path() {
    // Opposite representations of the identity rotation: the blend negates
    // the second operand instead of cancelling to zero.
    let a = Quaternion::new(0, 0, 0, 1, 1).unwrap();
    let b = Quaternion::new(0, 0, 0, -1, 1).unwrap();
    let r = Quaternion::slerp(&a, &b, &rat(1, 2)).unwrap();
    assert!(same_ratio(r.w, r.den, 1, 1));
}

#[test]
fn quaternion_set_to_axis_angle() {
    let mut q: Quaternion = Default::default();
    // cos = -7/25, sin = 24/25: the half angle has the rational cosine and
    // sine 3/5 and 4/5, so the quaternion is exactly representable (with the
    // axis sense the row-vector convention gives it).
    q.setToAxisAngle(&v3(0, 0, 1, 1), &rat(-7, 25), &rat(24, 25)).unwrap();
    assert!(same_ratio(q.z, q.den, -4, 5));
    assert!(same_ratio(q.w, q.den, 3, 5));
    assert!(same_ratio(q.x, q.den, 0, 1));
}

#[test]
fn quaternion_look_rotation_exact_case() {
    let mut q: Quaternion = Default::default();
    q.lookRotation(&v3(0, 1, 0, 1), &v3(1, 0, 0, 1)).unwrap();
    assert_eq!((q.x, q.y, q.z, q.w, q.den), (-1, 1, -1, 1, 2));
}

#[test]
fn quaternion_look_rotation_irrational_is_reported() {
    let mut q: Quaternion = Default::default();
    assert_eq!(
        q.lookRotation(&v3(0, 0, 1, 1), &v3(0, 1, 0, 1)),
        Err(MathError::NumericOverflow)
    );
    assert_eq!((q.x, q.y, q.z, q.w, q.den), (0, 0, 0, 1, 1));
}

#[test]
fn matrix44_mul_composes() {
    let mut a: Matrix44 = Default::default();
    a.scale(&v3(2, 2, 2, 1)).unwrap();
    let mut b: Matrix44 = Default::default();
    b.translate(&v3(1, 0, 0, 1)).unwrap();
    // Transforming by the product equals transforming by `b` first, then
    // by `a`.
    let ab = Matrix44::mul(&a, &b).unwrap();
    let v = softrast::vectors::Vector4::new(1, 1, 1, 1, 1).unwrap();
    let direct = Matrix44::trans(&ab, &v).unwrap();
    let first = Matrix44::trans(&b, &v).unwrap();
    let chained = Matrix44::trans(&a, &first).unwrap();
    assert!(same_ratio(direct.x, direct.den, chained.x, chained.den));
    assert!(same_ratio(direct.y, direct.den, chained.y, chained.den));
    assert!(same_ratio(direct.z, direct.den, chained.z, chained.den));
    assert!(same_ratio(direct.w, direct.den, chained.w, chained.den));
}

#[test]
fn matrix44_transform_pipeline() {
    // Scale by (4,1,1), then translate by (0,20,0); the point (10,10,1)
    // projects to (40,30,1) in homogeneous coordinates.
    let mut t: Matrix44 = Default::default();
    t.scale(&v3(4, 1, 1, 1)).unwrap();
    t.translate(&v3(0, 20, 0, 1)).unwrap();
    let v = softrast::vectors::Vector4::new(10, 10, 1, 1, 1).unwrap();
    let p = Matrix44::trans(&t, &v).unwrap();
    assert!(same_ratio(p.x, p.den, 40, 1));
    assert!(same_ratio(p.y, p.den, 30, 1));
    assert!(same_ratio(p.z, p.den, 1, 1));
    assert!(same_ratio(p.w, p.den, 1, 1));
}

#[test]
fn matrix44_invert_twice_restores() {
    let mut m: Matrix44 = Default::default();
    m.m00 = 2;
    m.m01 = 1;
    m.m11 = 3;
    m.m22 = 1;
    m.m33 = 5;
    m.den = 2;
    let orig = m;
    m.invert().unwrap();
    m.invert().unwrap();
    assert!(same_ratio(m.m00, m.den, orig.m00, orig.den));
    assert!(same_ratio(m.m01, m.den, orig.m01, orig.den));
    assert!(same_ratio(m.m10, m.den, orig.m10, orig.den));
    assert!(same_ratio(m.m11, m.den, orig.m11, orig.den));
    assert!(same_ratio(m.m22, m.den, orig.m22, orig.den));
    assert!(same_ratio(m.m33, m.den, orig.m33, orig.den));
}

#[test]
fn matrix33_invert_twice_restores() {
    let mut m = Matrix33 {
        m00: 1, m01: 2, m02: 0,
        m10: 0, m11: 1, m12: 3,
        m20: 1, m21: 0, m22: 1,
        den: 2,
    };
    let orig = m;
    m.invert().unwrap();
    m.invert().unwrap();
    assert!(same_ratio(m.m00, m.den, orig.m00, orig.den));
    assert!(same_ratio(m.m01, m.den, orig.m01, orig.den));
    assert!(same_ratio(m.m12, m.den, orig.m12, orig.den));
    assert!(same_ratio(m.m20, m.den, orig.m20, orig.den));
    assert!(same_ratio(m.m22, m.den, orig.m22, orig.den));
}

#[test]
fn matrix44_rotate_general_axis_and_back() {
    // A rotation about the non-coordinate unit axis (3,4,0)/5 composed with
    // the opposite rotation also restores the transform exactly.
    let axis = v3(3, 4, 0, 5);
    let mut m: Matrix44 = Default::default();
    m.translate(&v3(1, 2, 3, 1)).unwrap();
    let before = m;
    m.rotate(&axis, &rat(3, 5), &rat(4, 5)).unwrap();
    m.rotate(&axis, &rat(3, 5), &rat(-4, 5)).unwrap();
    assert!(same_ratio(m.m00, m.den, before.m00, before.den));
    assert!(same_ratio(m.m01, m.den, before.m01, before.den));
    assert!(same_ratio(m.m10, m.den, before.m10, before.den));
    assert!(same_ratio(m.m11, m.den, before.m11, before.den));
    assert!(same_ratio(m.m22, m.den, before.m22, before.den));
    assert!(same_ratio(m.m30, m.den, before.m30, before.den));
    assert!(same_ratio(m.m31, m.den, before.m31, before.den));
    assert!(same_ratio(m.m32, m.den, before.m32, before.den));
    assert!(same_ratio(m.m33, m.den, before.m33, before.den));
}

#[test]
fn quaternion_rotates_vectors() {
    // The unit quaternion (0,0,4,3)/5 turns the plane about z; multiplying
    // a vector goes through the rotation matrix exactly.
    let q = Quaternion::new(0, 0, 4, 3, 5).unwrap();
    let v = Quaternion::mulVector3(&q, &v3(1, 0, 0, 1)).unwrap();
    assert_eq!((v.x, v.y, v.z, v.den), (-7, -24, 0, 25));
    // The result of a rotation keeps its length.
    assert!(v.length().unwrap().eq_value(&Rat::one()));
    // Multiplying by the identity rotation changes nothing.
    let id: Quaternion = Default::default();
    let w = Quaternion::mulVector4(
        &id,
        &softrast::vectors::Vector4::new(1, 2, 3, 4, 5).unwrap(),
    ).unwrap();
    assert_eq!((w.x, w.y, w.z, w.w, w.den), (1, 2, 3, 4, 5));
}
