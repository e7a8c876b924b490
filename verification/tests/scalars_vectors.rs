//! Exact scalar and vector behaviour, including the edge cases the library
//! promises to detect.

use softrast::rat::{Rat, MathError};
use softrast::math_utils::GeneralMath;
use softrast::vectors::{Vector2, Vector3, Vector4};

fn rat(n: i64, d: i64) -> Rat {
    Rat::new(n, d).unwrap()
}

#[test]
fn rat_add_exact() {
    let r = rat(1, 2).add(&rat(1, 3)).unwrap();
    assert!(r.eq_value(&rat(5, 6)));
}

#[test]
fn rat_sub_mul_div_exact() {
    assert!(rat(3, 4).sub(&rat(1, 4)).unwrap().eq_value(&rat(1, 2)));
    assert!(rat(2, 3).mul(&rat(9, 4)).unwrap().eq_value(&rat(3, 2)));
    assert!(rat(1, 2).div(&rat(3, 4)).unwrap().eq_value(&rat(2, 3)));
}

#[test]
fn rat_div_by_zero_is_degenerate() {
    assert_eq!(rat(1, 2).div(&Rat::zero()), Err(MathError::DegenerateGeometry));
}

#[test]
fn rat_new_zero_denominator_is_degenerate() {
    assert_eq!(Rat::new(1, 0), Err(MathError::DegenerateGeometry));
}

#[test]
fn rat_negative_denominator_moves_sign() {
    let r = rat(1, -2);
    assert!(r.den > 0);
    assert!(r.eq_value(&Rat { num: -1, den: 2 }));
}

#[test]
fn rat_add_overflow_reported() {
    let big = rat(i64::MAX, 1);
    assert_eq!(big.add(&big), Err(MathError::NumericOverflow));
}

#[test]
fn rat_trunc_rounds_toward_zero() {
    assert_eq!(rat(7, 2).trunc(), 3);
    assert_eq!(rat(-7, 2).trunc(), -3);
    assert_eq!(rat(4, 2).trunc(), 2);
}

#[test]
fn rat_ordering() {
    assert!(rat(1, 3).lt(&rat(1, 2)));
    assert!(!rat(1, 2).lt(&rat(1, 2)));
    assert!(rat(1, 2).le(&rat(2, 4)));
    assert!(rat(-1, 2).lt(&Rat::zero()));
}

#[test]
fn exact_sqrt_only_on_perfect_squares() {
    assert_eq!(softrast::rat::exact_sqrt(16), Some(4));
    assert_eq!(softrast::rat::exact_sqrt(0), Some(0));
    assert_eq!(softrast::rat::exact_sqrt(15), None);
    assert_eq!(softrast::rat::floor_sqrt(15), 3);
}

#[test]
fn interpolate_midpoint() {
    let r = GeneralMath::interpolate(&Rat::zero(), &rat(10, 1), &rat(1, 2)).unwrap();
    assert!(r.eq_value(&rat(5, 1)));
}

#[test]
fn interpolate_extrapolates() {
    let r = GeneralMath::interpolate(&Rat::zero(), &rat(10, 1), &rat(2, 1)).unwrap();
    assert!(r.eq_value(&rat(20, 1)));
}

fn v2(x: i32, y: i32, den: i32) -> Vector2 {
    Vector2::new(x, y, den).unwrap()
}

fn v3(x: i32, y: i32, z: i32, den: i32) -> Vector3 {
    Vector3::new(x, y, z, den).unwrap()
}

fn v4(x: i32, y: i32, z: i32, w: i32, den: i32) -> Vector4 {
    Vector4::new(x, y, z, w, den).unwrap()
}

#[test]
fn length_of_pythagorean_vector() {
    let len = v2(3, 4, 1).length().unwrap();
    assert!(len.eq_value(&rat(5, 1)));
    let len3 = v3(2, 3, 6, 1).length().unwrap();
    assert!(len3.eq_value(&rat(7, 1)));
    let len4 = v4(1, 2, 4, 10, 11).length().unwrap();
    assert!(len4.eq_value(&rat(11, 11)));
}

#[test]
fn length_of_zero_vector_is_zero() {
    let len = v3(0, 0, 0, 1).length().unwrap();
    assert!(len.eq_value(&Rat::zero()));
}

#[test]
fn irrational_length_is_reported() {
    assert_eq!(v2(1, 1, 1).length(), Err(MathError::NumericOverflow));
}

#[test]
fn normalized_vector_has_length_one() {
    // Normalizing any non-zero vector with a rational length gives squared
    // length exactly one.
    let mut v = v2(3, 4, 7);
    v.normalize().unwrap();
    assert_eq!((v.x, v.y, v.den), (3, 4, 5));
    assert!(v.length().unwrap().eq_value(&Rat::one()));

    let u = Vector3::getNormalized(&v3(2, 3, 6, 2)).unwrap();
    assert!(u.length().unwrap().eq_value(&Rat::one()));
}

#[test]
fn normalize_zero_vector_is_degenerate() {
    let mut v = v3(0, 0, 0, 3);
    assert_eq!(v.normalize(), Err(MathError::DegenerateGeometry));
    assert_eq!((v.x, v.y, v.z, v.den), (0, 0, 0, 3));
}

#[test]
fn vector_arithmetic_componentwise() {
    let a = v3(1, 2, 3, 2);
    let b = v3(1, 1, 1, 1);
    let sum = Vector3::add(&a, &b).unwrap();
    assert_eq!((sum.x, sum.y, sum.z, sum.den), (3, 4, 5, 2));
    let diff = Vector3::sub(&a, &b).unwrap();
    assert_eq!((diff.x, diff.y, diff.z, diff.den), (-1, 0, 1, 2));
    let prod = Vector3::mul(&a, &b).unwrap();
    assert_eq!((prod.x, prod.y, prod.z, prod.den), (1, 2, 3, 2));
}

#[test]
fn dot_product_symmetric() {
    let a = v3(1, -2, 3, 2);
    let b = v3(4, 5, -6, 3);
    let ab = Vector3::dot(&a, &b).unwrap();
    let ba = Vector3::dot(&b, &a).unwrap();
    assert!(ab.eq_value(&ba));
    assert!(ab.eq_value(&rat(-24, 6)));
    let c = v2(1, 2, 1);
    let d = v2(3, 4, 1);
    assert!(Vector2::dot(&c, &d).unwrap().eq_value(&Vector2::dot(&d, &c).unwrap()));
}

#[test]
fn cross_product_antisymmetric() {
    let a = v3(1, 0, 0, 1);
    let b = v3(0, 1, 0, 1);
    let ab = Vector3::cross(&a, &b).unwrap();
    assert_eq!((ab.x, ab.y, ab.z, ab.den), (0, 0, 1, 1));
    let ba = Vector3::cross(&b, &a).unwrap();
    assert_eq!((ba.x, ba.y, ba.z, ba.den), (0, 0, -1, 1));
    let p = v3(2, 3, 4, 5);
    let q = v3(-1, 7, 2, 3);
    let pq = Vector3::cross(&p, &q).unwrap();
    let qp = Vector3::cross(&q, &p).unwrap();
    assert_eq!((pq.x, pq.y, pq.z, pq.den), (-qp.x, -qp.y, -qp.z, qp.den));
}

#[test]
fn lerp_midpoint_and_endpoints() {
    let a = v2(0, 0, 1);
    let b = v2(10, 20, 1);
    let mid = Vector2::lerp(&a, &b, &rat(1, 2)).unwrap();
    assert_eq!((mid.x, mid.y, mid.den), (10, 20, 2));
    let end = Vector2::lerp(&a, &b, &Rat::one()).unwrap();
    assert_eq!((end.x, end.y, end.den), (10, 20, 1));
}

#[test]
fn dist_is_length_of_difference() {
    let d = Vector2::dist(&v2(1, 1, 1), &v2(4, 5, 1)).unwrap();
    assert!(d.eq_value(&rat(5, 1)));
}

#[test]
fn cos_angle_clamped_and_exact() {
    // Perpendicular vectors: cosine zero.
    let c = Vector2::cosAngle(&v2(1, 0, 1), &v2(0, 1, 1)).unwrap();
    assert!(c.eq_value(&Rat::zero()));
    // Parallel vectors: cosine one.
    let c1 = Vector3::cosAngle(&v3(3, 4, 0, 1), &v3(6, 8, 0, 1)).unwrap();
    assert!(c1.eq_value(&Rat::one()));
    // Opposite vectors: cosine minus one.
    let cm = Vector3::cosAngle(&v3(3, 4, 0, 1), &v3(-3, -4, 0, 1)).unwrap();
    assert!(cm.eq_value(&rat(-1, 1)));
    // A skew pair with rational lengths: 24/25 exactly.
    let ck = Vector2::cosAngle(&v2(3, 4, 1), &v2(4, 3, 1)).unwrap();
    assert!(ck.eq_value(&rat(24, 25)));
}

#[test]
fn cos_angle_zero_vector_is_degenerate() {
    assert_eq!(
        Vector2::cosAngle(&v2(0, 0, 1), &v2(1, 0, 1)),
        Err(MathError::DegenerateGeometry)
    );
}

#[test]
fn scale_in_place() {
    let mut v = v3(1, 2, 3, 1);
    v.scale(&rat(3, 2)).unwrap();
    assert_eq!((v.x, v.y, v.z, v.den), (3, 6, 9, 2));
}

#[test]
fn vector_overflow_reported_and_value_kept() {
    let mut v = v2(2000000000, 0, 1);
    assert_eq!(v.scale(&rat(2, 1)), Err(MathError::NumericOverflow));
    assert_eq!((v.x, v.y, v.den), (2000000000, 0, 1));
}

#[test]
fn vector4_arithmetic_and_lerp() {
    let a = v4(1, 2, 3, 4, 1);
    let b = v4(5, 6, 7, 8, 1);
    let sum = Vector4::add(&a, &b).unwrap();
    assert_eq!((sum.x, sum.y, sum.z, sum.w, sum.den), (6, 8, 10, 12, 1));
    let mid = Vector4::lerp(&a, &b, &rat(1, 2)).unwrap();
    assert_eq!((mid.x, mid.y, mid.z, mid.w, mid.den), (6, 8, 10, 12, 2));
    let dot = Vector4::dot(&a, &b).unwrap();
    assert!(dot.eq_value(&rat(70, 1)));
}
