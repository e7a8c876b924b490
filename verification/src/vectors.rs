//! Exact 2-, 3- and 4-component vectors: integer components over one positive
//! denominator. Arithmetic is exact; lengths and normalization succeed when
//! the squared length is a perfect square, and report an error otherwise.

#![allow(non_snake_case)]

use vstd::prelude::*;
use crate::rat::{
    Rat, Ratio, MathError, ratio_eq, ratio_le, ratio_mul, ratio_of_int,
    ratio_clamp_unit, lemma_mul_bound, lemma_sq_monotonic, wmul32, wsq32, exact_sqrt,
};

verus! {

/// Components representable in the vector types.
pub open spec fn in_i32(x: int) -> bool {
    -0x7fff_ffff <= x <= 0x7fff_ffff
}

// ---------------------------------------------------------------- Vector2

/// Mathematical model of a 2-vector: `(x/d, y/d)`.
pub ghost struct Vec2Model {
    pub x: int,
    pub y: int,
    pub d: int,
}

pub open spec fn v2_wf(v: Vec2Model) -> bool {
    0 < v.d <= 0x7fff_ffff && in_i32(v.x) && in_i32(v.y)
}

pub open spec fn v2_fits(v: Vec2Model) -> bool {
    v2_wf(v)
}

/// Componentwise value equality.
pub open spec fn v2_veq(a: Vec2Model, b: Vec2Model) -> bool {
    ratio_eq(Ratio { n: a.x, d: a.d }, Ratio { n: b.x, d: b.d })
        && ratio_eq(Ratio { n: a.y, d: a.d }, Ratio { n: b.y, d: b.d })
}

pub open spec fn v2_len2(v: Vec2Model) -> Ratio {
    Ratio { n: v.x * v.x + v.y * v.y, d: v.d * v.d }
}

pub open spec fn v2_add(a: Vec2Model, b: Vec2Model) -> Vec2Model {
    Vec2Model { x: a.x * b.d + b.x * a.d, y: a.y * b.d + b.y * a.d, d: a.d * b.d }
}

pub open spec fn v2_sub(a: Vec2Model, b: Vec2Model) -> Vec2Model {
    Vec2Model { x: a.x * b.d - b.x * a.d, y: a.y * b.d - b.y * a.d, d: a.d * b.d }
}

pub open spec fn v2_mul(a: Vec2Model, b: Vec2Model) -> Vec2Model {
    Vec2Model { x: a.x * b.x, y: a.y * b.y, d: a.d * b.d }
}

/// `a + (b - a) * t`.
pub open spec fn v2_lerp(a: Vec2Model, b: Vec2Model, t: Ratio) -> Vec2Model {
    Vec2Model {
        x: a.x * b.d * t.d + (b.x * a.d - a.x * b.d) * t.n,
        y: a.y * b.d * t.d + (b.y * a.d - a.y * b.d) * t.n,
        d: a.d * b.d * t.d,
    }
}

pub open spec fn v2_dot(a: Vec2Model, b: Vec2Model) -> Ratio {
    Ratio { n: a.x * b.x + a.y * b.y, d: a.d * b.d }
}

pub open spec fn v2_scale(a: Vec2Model, f: Ratio) -> Vec2Model {
    Vec2Model { x: a.x * f.n, y: a.y * f.n, d: a.d * f.d }
}

/// An exact 2-vector.
#[derive(Clone, Copy, Debug, PartialEq, Eq, Structural)]
pub struct Vector2 {
    pub x: i32,
    pub y: i32,
    pub den: i32,
}

impl View for Vector2 {
    type V = Vec2Model;

    open spec fn view(&self) -> Vec2Model {
        Vec2Model { x: self.x as int, y: self.y as int, d: self.den as int }
    }
}

impl Vector2 {
    pub open spec fn wf(&self) -> bool {
        v2_wf(self@)
    }

    /// Builds `(x/den, y/den)`; a negative denominator's sign moves into the
    /// components, a zero denominator is degenerate.
    pub fn new(x: i32, y: i32, den: i32) -> (r: Result<Vector2, MathError>)
        ensures
            r matches Ok(v) ==> v.wf() && v2_veq(v@, Vec2Model { x: x as int, y: y as int, d: den as int }),
            (r is Ok) == (den != 0 && x != i32::MIN && y != i32::MIN && den != i32::MIN),
            den == 0 ==> (r matches Err(e) ==> e == MathError::DegenerateGeometry),
            den != 0 ==> (r matches Err(e) ==> e == MathError::NumericOverflow),
    {
        if den == 0 {
            return Err(MathError::DegenerateGeometry);
        }
        if x == i32::MIN || y == i32::MIN || den == i32::MIN {
            return Err(MathError::NumericOverflow);
        }
        if den < 0 {
            let v = Vector2 { x: -x, y: -y, den: -den };
            proof {
                lemma_flip_eq(x as int, den as int);
                lemma_flip_eq(y as int, den as int);
            }
            Ok(v)
        } else {
            Ok(Vector2 { x, y, den })
        }
    }

    /// Euclidean length; exact when the squared length is a perfect square.
    /// The zero vector has length zero.
    pub fn length(&self) -> (r: Result<Rat, MathError>)
        requires
            self.wf(),
        ensures
            r matches Ok(len) ==> len.wf() && len@.n >= 0 && ratio_mul(len@, len@) == v2_len2(self@),
            (r is Ok) == (exists|s: int| 0 <= s && #[trigger] (s * s) == v2_len2(self@).n),
            r matches Err(e) ==> e == MathError::NumericOverflow,
    {
        let sum: i128 = wsq32(self.x) as i128 + wsq32(self.y) as i128;
        sqrt_over(sum, self.den)
    }

    pub fn add(vec1: &Vector2, vec2: &Vector2) -> (r: Result<Vector2, MathError>)
        requires
            vec1.wf(),
            vec2.wf(),
        ensures
            r matches Ok(v) ==> v.wf() && v@ == v2_add(vec1@, vec2@),
            (r is Ok) == v2_fits(v2_add(vec1@, vec2@)),
            r matches Err(e) ==> e == MathError::NumericOverflow,
    {
        let x: i128 = wmul32(vec1.x, vec2.den) as i128 + wmul32(vec2.x, vec1.den) as i128;
        let y: i128 = wmul32(vec1.y, vec2.den) as i128 + wmul32(vec2.y, vec1.den) as i128;
        let d: i128 = wmul32(vec1.den, vec2.den) as i128;
        Vector2::fit(x, y, d)
    }

    pub fn sub(vec1: &Vector2, vec2: &Vector2) -> (r: Result<Vector2, MathError>)
        requires
            vec1.wf(),
            vec2.wf(),
        ensures
            r matches Ok(v) ==> v.wf() && v@ == v2_sub(vec1@, vec2@),
            (r is Ok) == v2_fits(v2_sub(vec1@, vec2@)),
            r matches Err(e) ==> e == MathError::NumericOverflow,
    {
        let x: i128 = wmul32(vec1.x, vec2.den) as i128 - wmul32(vec2.x, vec1.den) as i128;
        let y: i128 = wmul32(vec1.y, vec2.den) as i128 - wmul32(vec2.y, vec1.den) as i128;
        let d: i128 = wmul32(vec1.den, vec2.den) as i128;
        Vector2::fit(x, y, d)
    }

    /// Componentwise product.
    pub fn mul(vec1: &Vector2, vec2: &Vector2) -> (r: Result<Vector2, MathError>)
        requires
            vec1.wf(),
            vec2.wf(),
        ensures
            r matches Ok(v) ==> v.wf() && v@ == v2_mul(vec1@, vec2@),
            (r is Ok) == v2_fits(v2_mul(vec1@, vec2@)),
            r matches Err(e) ==> e == MathError::NumericOverflow,
    {
        let x: i128 = wmul32(vec1.x, vec2.x) as i128;
        let y: i128 = wmul32(vec1.y, vec2.y) as i128;
        let d: i128 = wmul32(vec1.den, vec2.den) as i128;
        Vector2::fit(x, y, d)
    }

    /// `vec1 + (vec2 - vec1) * t`; `t` outside `[0, 1]` extrapolates.
    pub fn lerp(vec1: &Vector2, vec2: &Vector2, t: &Rat) -> (r: Result<Vector2, MathError>)
        requires
            vec1.wf(),
            vec2.wf(),
            t.wf(),
        ensures
            r matches Ok(v) ==> v.wf() && v@ == v2_lerp(vec1@, vec2@, t@),
            (r is Ok) == v2_fits(v2_lerp(vec1@, vec2@, t@)),
            r matches Err(e) ==> e == MathError::NumericOverflow,
    {
        let x: i128 = lerp_comp(vec1.x, vec1.den, vec2.x, vec2.den, t);
        let y: i128 = lerp_comp(vec1.y, vec1.den, vec2.y, vec2.den, t);
        let dd: i64 = wmul32(vec1.den, vec2.den);
        proof {
            lemma_mul_bound(dd as int, t@.d, 0x4000_0000_0000_0000, 0x7fff_ffff_ffff_ffff);
        }
        let d: i128 = (dd as i128) * (t.den as i128);
        Vector2::fit(x, y, d)
    }

    /// Exact dot product.
    pub fn dot(vec1: &Vector2, vec2: &Vector2) -> (r: Result<Rat, MathError>)
        requires
            vec1.wf(),
            vec2.wf(),
        ensures
            r matches Ok(q) ==> q.wf() && q@ == v2_dot(vec1@, vec2@),
            (r is Ok) == crate::rat::ratio_fits(v2_dot(vec1@, vec2@)),
            r matches Err(e) ==> e == MathError::NumericOverflow,
    {
        let n: i128 = wmul32(vec1.x, vec2.x) as i128 + wmul32(vec1.y, vec2.y) as i128;
        let d: i128 = wmul32(vec1.den, vec2.den) as i128;
        Rat::fit(n, d)
    }

    /// The cosine of the angle between the vectors, clamped into `[-1, 1]`
    /// so that rounding can never push it outside the domain of `acos`.
    /// Exact when the product of the squared lengths is a perfect square;
    /// degenerate when either vector is zero.
    pub fn cosAngle(vec1: &Vector2, vec2: &Vector2) -> (r: Result<Rat, MathError>)
        requires
            vec1.wf(),
            vec2.wf(),
        ensures
            r matches Ok(c) ==> c.wf() && ratio_le(ratio_of_int(-1), c@) && ratio_le(c@, ratio_of_int(1)),
            r matches Ok(c) ==> (exists|s: int|
                0 < s && #[trigger] (s * s) == v2_len2(vec1@).n * v2_len2(vec2@).n
                && c@ == ratio_clamp_unit(Ratio { n: v2_dot(vec1@, vec2@).n, d: s })),
            (r is Ok) == (v2_len2(vec1@).n != 0 && v2_len2(vec2@).n != 0
                && (exists|s: int| 0 < s <= 0x7fff_ffff_ffff_ffff
                    && #[trigger] (s * s) == v2_len2(vec1@).n * v2_len2(vec2@).n)),
            (v2_len2(vec1@).n == 0 || v2_len2(vec2@).n == 0)
                ==> (r matches Err(e) ==> e == MathError::DegenerateGeometry),
            (v2_len2(vec1@).n != 0 && v2_len2(vec2@).n != 0)
                ==> (r matches Err(e) ==> e == MathError::NumericOverflow),
    {
        let la2: i128 = wsq32(vec1.x) as i128 + wsq32(vec1.y) as i128;
        let lb2: i128 = wsq32(vec2.x) as i128 + wsq32(vec2.y) as i128;
        let dn: i128 = wmul32(vec1.x, vec2.x) as i128 + wmul32(vec1.y, vec2.y) as i128;
        clamped_cos(la2, lb2, dn)
    }

    /// Euclidean distance, `length(vec1 - vec2)`.
    pub fn dist(vec1: &Vector2, vec2: &Vector2) -> (r: Result<Rat, MathError>)
        requires
            vec1.wf(),
            vec2.wf(),
        ensures
            r matches Ok(len) ==> len.wf() && len@.n >= 0
                && ratio_mul(len@, len@) == v2_len2(v2_sub(vec1@, vec2@)),
            (r is Ok) == (v2_fits(v2_sub(vec1@, vec2@))
                && (exists|s: int| 0 <= s && #[trigger] (s * s) == v2_len2(v2_sub(vec1@, vec2@)).n)),
            r matches Err(e) ==> e == MathError::NumericOverflow,
    {
        match Vector2::sub(vec1, vec2) {
            Ok(dv) => dv.length(),
            Err(e) => Err(e),
        }
    }

    /// A normalized copy; the original is untouched.
    pub fn getNormalized(v: &Vector2) -> (r: Result<Vector2, MathError>)
        requires
            v.wf(),
        ensures
            r matches Ok(u) ==> u.wf() && ratio_eq(v2_len2(u@), ratio_of_int(1))
                && u@.x == v@.x && u@.y == v@.y,
            (r is Ok) == (v2_len2(v@).n != 0
                && (exists|s: int| 0 < s <= 0x7fff_ffff && #[trigger] (s * s) == v2_len2(v@).n)),
            v2_len2(v@).n == 0 ==> (r matches Err(e) ==> e == MathError::DegenerateGeometry),
            v2_len2(v@).n != 0 ==> (r matches Err(e) ==> e == MathError::NumericOverflow),
    {
        let mut f: Vector2 = *v;
        match f.normalize() {
            Ok(()) => Ok(f),
            Err(e) => Err(e),
        }
    }

    /// Multiplies every component by `factor`, in place; on failure the
    /// vector is unchanged.
    pub fn scale(&mut self, factor: &Rat) -> (r: Result<(), MathError>)
        requires
            old(self).wf(),
            factor.wf(),
        ensures
            r is Ok ==> final(self).wf() && final(self)@ == v2_scale(old(self)@, factor@),
            (r is Ok) == v2_fits(v2_scale(old(self)@, factor@)),
            r is Err ==> *final(self) == *old(self),
            r matches Err(e) ==> e == MathError::NumericOverflow,
    {
        proof {
            lemma_mul_bound(self@.x, factor@.n, 0x7fff_ffff, 0x7fff_ffff_ffff_ffff);
            lemma_mul_bound(self@.y, factor@.n, 0x7fff_ffff, 0x7fff_ffff_ffff_ffff);
            lemma_mul_bound(self@.d, factor@.d, 0x7fff_ffff, 0x7fff_ffff_ffff_ffff);
        }
        let x: i128 = (self.x as i128) * (factor.num as i128);
        let y: i128 = (self.y as i128) * (factor.num as i128);
        let d: i128 = (self.den as i128) * (factor.den as i128);
        match Vector2::fit(x, y, d) {
            Ok(v) => {
                *self = v;
                Ok(())
            }
            Err(e) => Err(e),
        }
    }

    /// Scales the vector to length one, in place. Fails (leaving the vector
    /// unchanged) on the zero vector, or when the exact length is not
    /// representable; on success the squared length is exactly one.
    pub fn normalize(&mut self) -> (r: Result<(), MathError>)
        requires
            old(self).wf(),
        ensures
            r is Ok ==> final(self).wf() && ratio_eq(v2_len2(final(self)@), ratio_of_int(1))
                && final(self)@.x == old(self)@.x && final(self)@.y == old(self)@.y
                && final(self)@.d * final(self)@.d == v2_len2(old(self)@).n,
            (r is Ok) == (v2_len2(old(self)@).n != 0
                && (exists|s: int| 0 < s <= 0x7fff_ffff && #[trigger] (s * s) == v2_len2(old(self)@).n)),
            r is Err ==> *final(self) == *old(self),
            v2_len2(old(self)@).n == 0 ==> (r matches Err(e) ==> e == MathError::DegenerateGeometry),
            v2_len2(old(self)@).n != 0 ==> (r matches Err(e) ==> e == MathError::NumericOverflow),
    {
        let sum: i128 = wsq32(self.x) as i128 + wsq32(self.y) as i128;
        match unit_den(sum) {
            Ok(s) => {
                self.den = s;
                Ok(())
            }
            Err(e) => Err(e),
        }
    }

    /// Stores exact components held in wide intermediates, if they fit.
    fn fit(x: i128, y: i128, d: i128) -> (r: Result<Vector2, MathError>)
        ensures
            r matches Ok(v) ==> v.wf()
                && v@ == (Vec2Model { x: x as int, y: y as int, d: d as int }),
            (r is Ok) == v2_fits(Vec2Model { x: x as int, y: y as int, d: d as int }),
            r matches Err(e) ==> e == MathError::NumericOverflow,
    {
        if 0 < d && d <= 0x7fff_ffff && -0x7fff_ffff <= x && x <= 0x7fff_ffff
            && -0x7fff_ffff <= y && y <= 0x7fff_ffff {
            Ok(Vector2 { x: x as i32, y: y as i32, den: d as i32 })
        } else {
            Err(MathError::NumericOverflow)
        }
    }
}

// ---------------------------------------------------------------- Vector3

/// Mathematical model of a 3-vector: `(x/d, y/d, z/d)`.
pub ghost struct Vec3Model {
    pub x: int,
    pub y: int,
    pub z: int,
    pub d: int,
}

pub open spec fn v3_wf(v: Vec3Model) -> bool {
    0 < v.d <= 0x7fff_ffff && in_i32(v.x) && in_i32(v.y) && in_i32(v.z)
}

pub open spec fn v3_fits(v: Vec3Model) -> bool {
    v3_wf(v)
}

pub open spec fn v3_veq(a: Vec3Model, b: Vec3Model) -> bool {
    ratio_eq(Ratio { n: a.x, d: a.d }, Ratio { n: b.x, d: b.d })
        && ratio_eq(Ratio { n: a.y, d: a.d }, Ratio { n: b.y, d: b.d })
        && ratio_eq(Ratio { n: a.z, d: a.d }, Ratio { n: b.z, d: b.d })
}

pub open spec fn v3_len2(v: Vec3Model) -> Ratio {
    Ratio { n: v.x * v.x + v.y * v.y + v.z * v.z, d: v.d * v.d }
}

pub open spec fn v3_add(a: Vec3Model, b: Vec3Model) -> Vec3Model {
    Vec3Model {
        x: a.x * b.d + b.x * a.d,
        y: a.y * b.d + b.y * a.d,
        z: a.z * b.d + b.z * a.d,
        d: a.d * b.d,
    }
}

pub open spec fn v3_sub(a: Vec3Model, b: Vec3Model) -> Vec3Model {
    Vec3Model {
        x: a.x * b.d - b.x * a.d,
        y: a.y * b.d - b.y * a.d,
        z: a.z * b.d - b.z * a.d,
        d: a.d * b.d,
    }
}

pub open spec fn v3_mul(a: Vec3Model, b: Vec3Model) -> Vec3Model {
    Vec3Model { x: a.x * b.x, y: a.y * b.y, z: a.z * b.z, d: a.d * b.d }
}

pub open spec fn v3_lerp(a: Vec3Model, b: Vec3Model, t: Ratio) -> Vec3Model {
    Vec3Model {
        x: a.x * b.d * t.d + (b.x * a.d - a.x * b.d) * t.n,
        y: a.y * b.d * t.d + (b.y * a.d - a.y * b.d) * t.n,
        z: a.z * b.d * t.d + (b.z * a.d - a.z * b.d) * t.n,
        d: a.d * b.d * t.d,
    }
}

pub open spec fn v3_dot(a: Vec3Model, b: Vec3Model) -> Ratio {
    Ratio { n: a.x * b.x + a.y * b.y + a.z * b.z, d: a.d * b.d }
}

/// Right-hand-rule cross product.
pub open spec fn v3_cross(a: Vec3Model, b: Vec3Model) -> Vec3Model {
    Vec3Model {
        x: a.y * b.z - a.z * b.y,
        y: a.z * b.x - a.x * b.z,
        z: a.x * b.y - a.y * b.x,
        d: a.d * b.d,
    }
}

pub open spec fn v3_scale(a: Vec3Model, f: Ratio) -> Vec3Model {
    Vec3Model { x: a.x * f.n, y: a.y * f.n, z: a.z * f.n, d: a.d * f.d }
}

pub open spec fn v3_neg(a: Vec3Model) -> Vec3Model {
    Vec3Model { x: -a.x, y: -a.y, z: -a.z, d: a.d }
}

/// An exact 3-vector.
#[derive(Clone, Copy, Debug, PartialEq, Eq, Structural)]
pub struct Vector3 {
    pub x: i32,
    pub y: i32,
    pub z: i32,
    pub den: i32,
}

impl View for Vector3 {
    type V = Vec3Model;

    open spec fn view(&self) -> Vec3Model {
        Vec3Model { x: self.x as int, y: self.y as int, z: self.z as int, d: self.den as int }
    }
}

impl Vector3 {
    pub open spec fn wf(&self) -> bool {
        v3_wf(self@)
    }

    pub fn new(x: i32, y: i32, z: i32, den: i32) -> (r: Result<Vector3, MathError>)
        ensures
            r matches Ok(v) ==> v.wf()
                && v3_veq(v@, Vec3Model { x: x as int, y: y as int, z: z as int, d: den as int }),
            (r is Ok) == (den != 0 && x != i32::MIN && y != i32::MIN && z != i32::MIN
                && den != i32::MIN),
            den == 0 ==> (r matches Err(e) ==> e == MathError::DegenerateGeometry),
            den != 0 ==> (r matches Err(e) ==> e == MathError::NumericOverflow),
    {
        if den == 0 {
            return Err(MathError::DegenerateGeometry);
        }
        if x == i32::MIN || y == i32::MIN || z == i32::MIN || den == i32::MIN {
            return Err(MathError::NumericOverflow);
        }
        if den < 0 {
            let v = Vector3 { x: -x, y: -y, z: -z, den: -den };
            proof {
                lemma_flip_eq(x as int, den as int);
                lemma_flip_eq(y as int, den as int);
                lemma_flip_eq(z as int, den as int);
            }
            Ok(v)
        } else {
            Ok(Vector3 { x, y, z, den })
        }
    }

    /// Right-hand-rule cross product, exact.
    pub fn cross(vec1: &Vector3, vec2: &Vector3) -> (r: Result<Vector3, MathError>)
        requires
            vec1.wf(),
            vec2.wf(),
        ensures
            r matches Ok(v) ==> v.wf() && v@ == v3_cross(vec1@, vec2@),
            (r is Ok) == v3_fits(v3_cross(vec1@, vec2@)),
            r matches Err(e) ==> e == MathError::NumericOverflow,
    {
        let x: i128 = wmul32(vec1.y, vec2.z) as i128 - wmul32(vec1.z, vec2.y) as i128;
        let y: i128 = wmul32(vec1.z, vec2.x) as i128 - wmul32(vec1.x, vec2.z) as i128;
        let z: i128 = wmul32(vec1.x, vec2.y) as i128 - wmul32(vec1.y, vec2.x) as i128;
        let d: i128 = wmul32(vec1.den, vec2.den) as i128;
        Vector3::fit(x, y, z, d)
    }

    pub fn length(&self) -> (r: Result<Rat, MathError>)
        requires
            self.wf(),
        ensures
            r matches Ok(len) ==> len.wf() && len@.n >= 0 && ratio_mul(len@, len@) == v3_len2(self@),
            (r is Ok) == (exists|s: int| 0 <= s && #[trigger] (s * s) == v3_len2(self@).n),
            r matches Err(e) ==> e == MathError::NumericOverflow,
    {
        let sum: i128 = wsq32(self.x) as i128 + wsq32(self.y) as i128 + wsq32(self.z) as i128;
        sqrt_over(sum, self.den)
    }

    pub fn add(vec1: &Vector3, vec2: &Vector3) -> (r: Result<Vector3, MathError>)
        requires
            vec1.wf(),
            vec2.wf(),
        ensures
            r matches Ok(v) ==> v.wf() && v@ == v3_add(vec1@, vec2@),
            (r is Ok) == v3_fits(v3_add(vec1@, vec2@)),
            r matches Err(e) ==> e == MathError::NumericOverflow,
    {
        let x: i128 = wmul32(vec1.x, vec2.den) as i128 + wmul32(vec2.x, vec1.den) as i128;
        let y: i128 = wmul32(vec1.y, vec2.den) as i128 + wmul32(vec2.y, vec1.den) as i128;
        let z: i128 = wmul32(vec1.z, vec2.den) as i128 + wmul32(vec2.z, vec1.den) as i128;
        let d: i128 = wmul32(vec1.den, vec2.den) as i128;
        Vector3::fit(x, y, z, d)
    }

    pub fn sub(vec1: &Vector3, vec2: &Vector3) -> (r: Result<Vector3, MathError>)
        requires
            vec1.wf(),
            vec2.wf(),
        ensures
            r matches Ok(v) ==> v.wf() && v@ == v3_sub(vec1@, vec2@),
            (r is Ok) == v3_fits(v3_sub(vec1@, vec2@)),
            r matches Err(e) ==> e == MathError::NumericOverflow,
    {
        let x: i128 = wmul32(vec1.x, vec2.den) as i128 - wmul32(vec2.x, vec1.den) as i128;
        let y: i128 = wmul32(vec1.y, vec2.den) as i128 - wmul32(vec2.y, vec1.den) as i128;
        let z: i128 = wmul32(vec1.z, vec2.den) as i128 - wmul32(vec2.z, vec1.den) as i128;
        let d: i128 = wmul32(vec1.den, vec2.den) as i128;
        Vector3::fit(x, y, z, d)
    }

    pub fn mul(vec1: &Vector3, vec2: &Vector3) -> (r: Result<Vector3, MathError>)
        requires
            vec1.wf(),
            vec2.wf(),
        ensures
            r matches Ok(v) ==> v.wf() && v@ == v3_mul(vec1@, vec2@),
            (r is Ok) == v3_fits(v3_mul(vec1@, vec2@)),
            r matches Err(e) ==> e == MathError::NumericOverflow,
    {
        let x: i128 = wmul32(vec1.x, vec2.x) as i128;
        let y: i128 = wmul32(vec1.y, vec2.y) as i128;
        let z: i128 = wmul32(vec1.z, vec2.z) as i128;
        let d: i128 = wmul32(vec1.den, vec2.den) as i128;
        Vector3::fit(x, y, z, d)
    }

    pub fn lerp(vec1: &Vector3, vec2: &Vector3, t: &Rat) -> (r: Result<Vector3, MathError>)
        requires
            vec1.wf(),
            vec2.wf(),
            t.wf(),
        ensures
            r matches Ok(v) ==> v.wf() && v@ == v3_lerp(vec1@, vec2@, t@),
            (r is Ok) == v3_fits(v3_lerp(vec1@, vec2@, t@)),
            r matches Err(e) ==> e == MathError::NumericOverflow,
    {
        let x: i128 = lerp_comp(vec1.x, vec1.den, vec2.x, vec2.den, t);
        let y: i128 = lerp_comp(vec1.y, vec1.den, vec2.y, vec2.den, t);
        let z: i128 = lerp_comp(vec1.z, vec1.den, vec2.z, vec2.den, t);
        let dd: i64 = wmul32(vec1.den, vec2.den);
        proof {
            lemma_mul_bound(dd as int, t@.d, 0x4000_0000_0000_0000, 0x7fff_ffff_ffff_ffff);
        }
        let d: i128 = (dd as i128) * (t.den as i128);
        Vector3::fit(x, y, z, d)
    }

    pub fn dot(vec1: &Vector3, vec2: &Vector3) -> (r: Result<Rat, MathError>)
        requires
            vec1.wf(),
            vec2.wf(),
        ensures
            r matches Ok(q) ==> q.wf() && q@ == v3_dot(vec1@, vec2@),
            (r is Ok) == crate::rat::ratio_fits(v3_dot(vec1@, vec2@)),
            r matches Err(e) ==> e == MathError::NumericOverflow,
    {
        let n: i128 = wmul32(vec1.x, vec2.x) as i128 + wmul32(vec1.y, vec2.y) as i128
            + wmul32(vec1.z, vec2.z) as i128;
        let d: i128 = wmul32(vec1.den, vec2.den) as i128;
        Rat::fit(n, d)
    }

    /// See `Vector2::cosAngle`.
    pub fn cosAngle(vec1: &Vector3, vec2: &Vector3) -> (r: Result<Rat, MathError>)
        requires
            vec1.wf(),
            vec2.wf(),
        ensures
            r matches Ok(c) ==> c.wf() && ratio_le(ratio_of_int(-1), c@) && ratio_le(c@, ratio_of_int(1)),
            r matches Ok(c) ==> (exists|s: int|
                0 < s && #[trigger] (s * s) == v3_len2(vec1@).n * v3_len2(vec2@).n
                && c@ == ratio_clamp_unit(Ratio { n: v3_dot(vec1@, vec2@).n, d: s })),
            (r is Ok) == (v3_len2(vec1@).n != 0 && v3_len2(vec2@).n != 0
                && (exists|s: int| 0 < s <= 0x7fff_ffff_ffff_ffff
                    && #[trigger] (s * s) == v3_len2(vec1@).n * v3_len2(vec2@).n)),
            (v3_len2(vec1@).n == 0 || v3_len2(vec2@).n == 0)
                ==> (r matches Err(e) ==> e == MathError::DegenerateGeometry),
            (v3_len2(vec1@).n != 0 && v3_len2(vec2@).n != 0)
                ==> (r matches Err(e) ==> e == MathError::NumericOverflow),
    {
        let la2: i128 = wsq32(vec1.x) as i128 + wsq32(vec1.y) as i128 + wsq32(vec1.z) as i128;
        let lb2: i128 = wsq32(vec2.x) as i128 + wsq32(vec2.y) as i128 + wsq32(vec2.z) as i128;
        let dn: i128 = wmul32(vec1.x, vec2.x) as i128 + wmul32(vec1.y, vec2.y) as i128
            + wmul32(vec1.z, vec2.z) as i128;
        clamped_cos(la2, lb2, dn)
    }

    pub fn dist(vec1: &Vector3, vec2: &Vector3) -> (r: Result<Rat, MathError>)
        requires
            vec1.wf(),
            vec2.wf(),
        ensures
            r matches Ok(len) ==> len.wf() && len@.n >= 0
                && ratio_mul(len@, len@) == v3_len2(v3_sub(vec1@, vec2@)),
            (r is Ok) == (v3_fits(v3_sub(vec1@, vec2@))
                && (exists|s: int| 0 <= s && #[trigger] (s * s) == v3_len2(v3_sub(vec1@, vec2@)).n)),
            r matches Err(e) ==> e == MathError::NumericOverflow,
    {
        match Vector3::sub(vec1, vec2) {
            Ok(dv) => dv.length(),
            Err(e) => Err(e),
        }
    }

    pub fn getNormalized(v: &Vector3) -> (r: Result<Vector3, MathError>)
        requires
            v.wf(),
        ensures
            r matches Ok(u) ==> u.wf() && ratio_eq(v3_len2(u@), ratio_of_int(1))
                && u@.x == v@.x && u@.y == v@.y && u@.z == v@.z,
            (r is Ok) == (v3_len2(v@).n != 0
                && (exists|s: int| 0 < s <= 0x7fff_ffff && #[trigger] (s * s) == v3_len2(v@).n)),
            v3_len2(v@).n == 0 ==> (r matches Err(e) ==> e == MathError::DegenerateGeometry),
            v3_len2(v@).n != 0 ==> (r matches Err(e) ==> e == MathError::NumericOverflow),
    {
        let mut f: Vector3 = *v;
        match f.normalize() {
            Ok(()) => Ok(f),
            Err(e) => Err(e),
        }
    }

    pub fn scale(&mut self, factor: &Rat) -> (r: Result<(), MathError>)
        requires
            old(self).wf(),
            factor.wf(),
        ensures
            r is Ok ==> final(self).wf() && final(self)@ == v3_scale(old(self)@, factor@),
            (r is Ok) == v3_fits(v3_scale(old(self)@, factor@)),
            r is Err ==> *final(self) == *old(self),
            r matches Err(e) ==> e == MathError::NumericOverflow,
    {
        proof {
            lemma_mul_bound(self@.x, factor@.n, 0x7fff_ffff, 0x7fff_ffff_ffff_ffff);
            lemma_mul_bound(self@.y, factor@.n, 0x7fff_ffff, 0x7fff_ffff_ffff_ffff);
            lemma_mul_bound(self@.z, factor@.n, 0x7fff_ffff, 0x7fff_ffff_ffff_ffff);
            lemma_mul_bound(self@.d, factor@.d, 0x7fff_ffff, 0x7fff_ffff_ffff_ffff);
        }
        let x: i128 = (self.x as i128) * (factor.num as i128);
        let y: i128 = (self.y as i128) * (factor.num as i128);
        let z: i128 = (self.z as i128) * (factor.num as i128);
        let d: i128 = (self.den as i128) * (factor.den as i128);
        match Vector3::fit(x, y, z, d) {
            Ok(v) => {
                *self = v;
                Ok(())
            }
            Err(e) => Err(e),
        }
    }

    /// See `Vector2::normalize`: on success the squared length is exactly one.
    pub fn normalize(&mut self) -> (r: Result<(), MathError>)
        requires
            old(self).wf(),
        ensures
            r is Ok ==> final(self).wf() && ratio_eq(v3_len2(final(self)@), ratio_of_int(1))
                && final(self)@.x == old(self)@.x && final(self)@.y == old(self)@.y
                && final(self)@.z == old(self)@.z
                && final(self)@.d * final(self)@.d == v3_len2(old(self)@).n,
            (r is Ok) == (v3_len2(old(self)@).n != 0
                && (exists|s: int| 0 < s <= 0x7fff_ffff && #[trigger] (s * s) == v3_len2(old(self)@).n)),
            r is Err ==> *final(self) == *old(self),
            v3_len2(old(self)@).n == 0 ==> (r matches Err(e) ==> e == MathError::DegenerateGeometry),
            v3_len2(old(self)@).n != 0 ==> (r matches Err(e) ==> e == MathError::NumericOverflow),
    {
        let sum: i128 = wsq32(self.x) as i128 + wsq32(self.y) as i128 + wsq32(self.z) as i128;
        match unit_den(sum) {
            Ok(s) => {
                self.den = s;
                Ok(())
            }
            Err(e) => Err(e),
        }
    }

    fn fit(x: i128, y: i128, z: i128, d: i128) -> (r: Result<Vector3, MathError>)
        ensures
            r matches Ok(v) ==> v.wf()
                && v@ == (Vec3Model { x: x as int, y: y as int, z: z as int, d: d as int }),
            (r is Ok) == v3_fits(Vec3Model { x: x as int, y: y as int, z: z as int, d: d as int }),
            r matches Err(e) ==> e == MathError::NumericOverflow,
    {
        if 0 < d && d <= 0x7fff_ffff && -0x7fff_ffff <= x && x <= 0x7fff_ffff
            && -0x7fff_ffff <= y && y <= 0x7fff_ffff && -0x7fff_ffff <= z && z <= 0x7fff_ffff {
            Ok(Vector3 { x: x as i32, y: y as i32, z: z as i32, den: d as i32 })
        } else {
            Err(MathError::NumericOverflow)
        }
    }
}

// ---------------------------------------------------------------- Vector4

/// Mathematical model of a 4-vector: `(x/d, y/d, z/d, w/d)`.
pub ghost struct Vec4Model {
    pub x: int,
    pub y: int,
    pub z: int,
    pub w: int,
    pub d: int,
}

pub open spec fn v4_wf(v: Vec4Model) -> bool {
    0 < v.d <= 0x7fff_ffff && in_i32(v.x) && in_i32(v.y) && in_i32(v.z) && in_i32(v.w)
}

pub open spec fn v4_fits(v: Vec4Model) -> bool {
    v4_wf(v)
}

pub open spec fn v4_veq(a: Vec4Model, b: Vec4Model) -> bool {
    ratio_eq(Ratio { n: a.x, d: a.d }, Ratio { n: b.x, d: b.d })
        && ratio_eq(Ratio { n: a.y, d: a.d }, Ratio { n: b.y, d: b.d })
        && ratio_eq(Ratio { n: a.z, d: a.d }, Ratio { n: b.z, d: b.d })
        && ratio_eq(Ratio { n: a.w, d: a.d }, Ratio { n: b.w, d: b.d })
}

pub open spec fn v4_len2(v: Vec4Model) -> Ratio {
    Ratio { n: v.x * v.x + v.y * v.y + v.z * v.z + v.w * v.w, d: v.d * v.d }
}

pub open spec fn v4_add(a: Vec4Model, b: Vec4Model) -> Vec4Model {
    Vec4Model {
        x: a.x * b.d + b.x * a.d,
        y: a.y * b.d + b.y * a.d,
        z: a.z * b.d + b.z * a.d,
        w: a.w * b.d + b.w * a.d,
        d: a.d * b.d,
    }
}

pub open spec fn v4_sub(a: Vec4Model, b: Vec4Model) -> Vec4Model {
    Vec4Model {
        x: a.x * b.d - b.x * a.d,
        y: a.y * b.d - b.y * a.d,
        z: a.z * b.d - b.z * a.d,
        w: a.w * b.d - b.w * a.d,
        d: a.d * b.d,
    }
}

pub open spec fn v4_mul(a: Vec4Model, b: Vec4Model) -> Vec4Model {
    Vec4Model { x: a.x * b.x, y: a.y * b.y, z: a.z * b.z, w: a.w * b.w, d: a.d * b.d }
}

pub open spec fn v4_lerp(a: Vec4Model, b: Vec4Model, t: Ratio) -> Vec4Model {
    Vec4Model {
        x: a.x * b.d * t.d + (b.x * a.d - a.x * b.d) * t.n,
        y: a.y * b.d * t.d + (b.y * a.d - a.y * b.d) * t.n,
        z: a.z * b.d * t.d + (b.z * a.d - a.z * b.d) * t.n,
        w: a.w * b.d * t.d + (b.w * a.d - a.w * b.d) * t.n,
        d: a.d * b.d * t.d,
    }
}

pub open spec fn v4_dot(a: Vec4Model, b: Vec4Model) -> Ratio {
    Ratio { n: a.x * b.x + a.y * b.y + a.z * b.z + a.w * b.w, d: a.d * b.d }
}

pub open spec fn v4_scale(a: Vec4Model, f: Ratio) -> Vec4Model {
    Vec4Model { x: a.x * f.n, y: a.y * f.n, z: a.z * f.n, w: a.w * f.n, d: a.d * f.d }
}

/// An exact 4-vector (homogeneous coordinates).
#[derive(Clone, Copy, Debug, PartialEq, Eq, Structural)]
pub struct Vector4 {
    pub x: i32,
    pub y: i32,
    pub z: i32,
    pub w: i32,
    pub den: i32,
}

impl View for Vector4 {
    type V = Vec4Model;

    open spec fn view(&self) -> Vec4Model {
        Vec4Model {
            x: self.x as int,
            y: self.y as int,
            z: self.z as int,
            w: self.w as int,
            d: self.den as int,
        }
    }
}

impl Vector4 {
    pub open spec fn wf(&self) -> bool {
        v4_wf(self@)
    }

    pub fn new(x: i32, y: i32, z: i32, w: i32, den: i32) -> (r: Result<Vector4, MathError>)
        ensures
            r matches Ok(v) ==> v.wf()
                && v4_veq(v@, Vec4Model {
                    x: x as int, y: y as int, z: z as int, w: w as int, d: den as int }),
            (r is Ok) == (den != 0 && x != i32::MIN && y != i32::MIN && z != i32::MIN
                && w != i32::MIN && den != i32::MIN),
            den == 0 ==> (r matches Err(e) ==> e == MathError::DegenerateGeometry),
            den != 0 ==> (r matches Err(e) ==> e == MathError::NumericOverflow),
    {
        if den == 0 {
            return Err(MathError::DegenerateGeometry);
        }
        if x == i32::MIN || y == i32::MIN || z == i32::MIN || w == i32::MIN || den == i32::MIN {
            return Err(MathError::NumericOverflow);
        }
        if den < 0 {
            let v = Vector4 { x: -x, y: -y, z: -z, w: -w, den: -den };
            proof {
                lemma_flip_eq(x as int, den as int);
                lemma_flip_eq(y as int, den as int);
                lemma_flip_eq(z as int, den as int);
                lemma_flip_eq(w as int, den as int);
            }
            Ok(v)
        } else {
            Ok(Vector4 { x, y, z, w, den })
        }
    }

    pub fn length(&self) -> (r: Result<Rat, MathError>)
        requires
            self.wf(),
        ensures
            r matches Ok(len) ==> len.wf() && len@.n >= 0 && ratio_mul(len@, len@) == v4_len2(self@),
            (r is Ok) == (exists|s: int| 0 <= s && #[trigger] (s * s) == v4_len2(self@).n),
            r matches Err(e) ==> e == MathError::NumericOverflow,
    {
        let sum: i128 = wsq32(self.x) as i128 + wsq32(self.y) as i128 + wsq32(self.z) as i128
            + wsq32(self.w) as i128;
        sqrt_over(sum, self.den)
    }

    pub fn add(vec1: &Vector4, vec2: &Vector4) -> (r: Result<Vector4, MathError>)
        requires
            vec1.wf(),
            vec2.wf(),
        ensures
            r matches Ok(v) ==> v.wf() && v@ == v4_add(vec1@, vec2@),
            (r is Ok) == v4_fits(v4_add(vec1@, vec2@)),
            r matches Err(e) ==> e == MathError::NumericOverflow,
    {
        let x: i128 = wmul32(vec1.x, vec2.den) as i128 + wmul32(vec2.x, vec1.den) as i128;
        let y: i128 = wmul32(vec1.y, vec2.den) as i128 + wmul32(vec2.y, vec1.den) as i128;
        let z: i128 = wmul32(vec1.z, vec2.den) as i128 + wmul32(vec2.z, vec1.den) as i128;
        let w: i128 = wmul32(vec1.w, vec2.den) as i128 + wmul32(vec2.w, vec1.den) as i128;
        let d: i128 = wmul32(vec1.den, vec2.den) as i128;
        Vector4::fit(x, y, z, w, d)
    }

    pub fn sub(vec1: &Vector4, vec2: &Vector4) -> (r: Result<Vector4, MathError>)
        requires
            vec1.wf(),
            vec2.wf(),
        ensures
            r matches Ok(v) ==> v.wf() && v@ == v4_sub(vec1@, vec2@),
            (r is Ok) == v4_fits(v4_sub(vec1@, vec2@)),
            r matches Err(e) ==> e == MathError::NumericOverflow,
    {
        let x: i128 = wmul32(vec1.x, vec2.den) as i128 - wmul32(vec2.x, vec1.den) as i128;
        let y: i128 = wmul32(vec1.y, vec2.den) as i128 - wmul32(vec2.y, vec1.den) as i128;
        let z: i128 = wmul32(vec1.z, vec2.den) as i128 - wmul32(vec2.z, vec1.den) as i128;
        let w: i128 = wmul32(vec1.w, vec2.den) as i128 - wmul32(vec2.w, vec1.den) as i128;
        let d: i128 = wmul32(vec1.den, vec2.den) as i128;
        Vector4::fit(x, y, z, w, d)
    }

    pub fn mul(vec1: &Vector4, vec2: &Vector4) -> (r: Result<Vector4, MathError>)
        requires
            vec1.wf(),
            vec2.wf(),
        ensures
            r matches Ok(v) ==> v.wf() && v@ == v4_mul(vec1@, vec2@),
            (r is Ok) == v4_fits(v4_mul(vec1@, vec2@)),
            r matches Err(e) ==> e == MathError::NumericOverflow,
    {
        let x: i128 = wmul32(vec1.x, vec2.x) as i128;
        let y: i128 = wmul32(vec1.y, vec2.y) as i128;
        let z: i128 = wmul32(vec1.z, vec2.z) as i128;
        let w: i128 = wmul32(vec1.w, vec2.w) as i128;
        let d: i128 = wmul32(vec1.den, vec2.den) as i128;
        Vector4::fit(x, y, z, w, d)
    }

    pub fn lerp(vec1: &Vector4, vec2: &Vector4, t: &Rat) -> (r: Result<Vector4, MathError>)
        requires
            vec1.wf(),
            vec2.wf(),
            t.wf(),
        ensures
            r matches Ok(v) ==> v.wf() && v@ == v4_lerp(vec1@, vec2@, t@),
            (r is Ok) == v4_fits(v4_lerp(vec1@, vec2@, t@)),
            r matches Err(e) ==> e == MathError::NumericOverflow,
    {
        let x: i128 = lerp_comp(vec1.x, vec1.den, vec2.x, vec2.den, t);
        let y: i128 = lerp_comp(vec1.y, vec1.den, vec2.y, vec2.den, t);
        let z: i128 = lerp_comp(vec1.z, vec1.den, vec2.z, vec2.den, t);
        let w: i128 = lerp_comp(vec1.w, vec1.den, vec2.w, vec2.den, t);
        let dd: i64 = wmul32(vec1.den, vec2.den);
        proof {
            lemma_mul_bound(dd as int, t@.d, 0x4000_0000_0000_0000, 0x7fff_ffff_ffff_ffff);
        }
        let d: i128 = (dd as i128) * (t.den as i128);
        Vector4::fit(x, y, z, w, d)
    }

    pub fn dot(vec1: &Vector4, vec2: &Vector4) -> (r: Result<Rat, MathError>)
        requires
            vec1.wf(),
            vec2.wf(),
        ensures
            r matches Ok(q) ==> q.wf() && q@ == v4_dot(vec1@, vec2@),
            (r is Ok) == crate::rat::ratio_fits(v4_dot(vec1@, vec2@)),
            r matches Err(e) ==> e == MathError::NumericOverflow,
    {
        let n: i128 = wmul32(vec1.x, vec2.x) as i128 + wmul32(vec1.y, vec2.y) as i128
            + wmul32(vec1.z, vec2.z) as i128 + wmul32(vec1.w, vec2.w) as i128;
        let d: i128 = wmul32(vec1.den, vec2.den) as i128;
        Rat::fit(n, d)
    }

    /// See `Vector2::cosAngle`.
    pub fn cosAngle(vec1: &Vector4, vec2: &Vector4) -> (r: Result<Rat, MathError>)
        requires
            vec1.wf(),
            vec2.wf(),
        ensures
            r matches Ok(c) ==> c.wf() && ratio_le(ratio_of_int(-1), c@) && ratio_le(c@, ratio_of_int(1)),
            r matches Ok(c) ==> (exists|s: int|
                0 < s && #[trigger] (s * s) == v4_len2(vec1@).n * v4_len2(vec2@).n
                && c@ == ratio_clamp_unit(Ratio { n: v4_dot(vec1@, vec2@).n, d: s })),
            (r is Ok) == (v4_len2(vec1@).n != 0 && v4_len2(vec2@).n != 0
                && (exists|s: int| 0 < s <= 0x7fff_ffff_ffff_ffff
                    && #[trigger] (s * s) == v4_len2(vec1@).n * v4_len2(vec2@).n)),
            (v4_len2(vec1@).n == 0 || v4_len2(vec2@).n == 0)
                ==> (r matches Err(e) ==> e == MathError::DegenerateGeometry),
            (v4_len2(vec1@).n != 0 && v4_len2(vec2@).n != 0)
                ==> (r matches Err(e) ==> e == MathError::NumericOverflow),
    {
        let la2: i128 = wsq32(vec1.x) as i128 + wsq32(vec1.y) as i128 + wsq32(vec1.z) as i128
            + wsq32(vec1.w) as i128;
        let lb2: i128 = wsq32(vec2.x) as i128 + wsq32(vec2.y) as i128 + wsq32(vec2.z) as i128
            + wsq32(vec2.w) as i128;
        let dn: i128 = wmul32(vec1.x, vec2.x) as i128 + wmul32(vec1.y, vec2.y) as i128
            + wmul32(vec1.z, vec2.z) as i128 + wmul32(vec1.w, vec2.w) as i128;
        clamped_cos(la2, lb2, dn)
    }

    pub fn dist(vec1: &Vector4, vec2: &Vector4) -> (r: Result<Rat, MathError>)
        requires
            vec1.wf(),
            vec2.wf(),
        ensures
            r matches Ok(len) ==> len.wf() && len@.n >= 0
                && ratio_mul(len@, len@) == v4_len2(v4_sub(vec1@, vec2@)),
            (r is Ok) == (v4_fits(v4_sub(vec1@, vec2@))
                && (exists|s: int| 0 <= s && #[trigger] (s * s) == v4_len2(v4_sub(vec1@, vec2@)).n)),
            r matches Err(e) ==> e == MathError::NumericOverflow,
    {
        match Vector4::sub(vec1, vec2) {
            Ok(dv) => dv.length(),
            Err(e) => Err(e),
        }
    }

    pub fn getNormalized(v: &Vector4) -> (r: Result<Vector4, MathError>)
        requires
            v.wf(),
        ensures
            r matches Ok(u) ==> u.wf() && ratio_eq(v4_len2(u@), ratio_of_int(1))
                && u@.x == v@.x && u@.y == v@.y && u@.z == v@.z && u@.w == v@.w,
            (r is Ok) == (v4_len2(v@).n != 0
                && (exists|s: int| 0 < s <= 0x7fff_ffff && #[trigger] (s * s) == v4_len2(v@).n)),
            v4_len2(v@).n == 0 ==> (r matches Err(e) ==> e == MathError::DegenerateGeometry),
            v4_len2(v@).n != 0 ==> (r matches Err(e) ==> e == MathError::NumericOverflow),
    {
        let mut f: Vector4 = *v;
        match f.normalize() {
            Ok(()) => Ok(f),
            Err(e) => Err(e),
        }
    }

    pub fn scale(&mut self, factor: &Rat) -> (r: Result<(), MathError>)
        requires
            old(self).wf(),
            factor.wf(),
        ensures
            r is Ok ==> final(self).wf() && final(self)@ == v4_scale(old(self)@, factor@),
            (r is Ok) == v4_fits(v4_scale(old(self)@, factor@)),
            r is Err ==> *final(self) == *old(self),
            r matches Err(e) ==> e == MathError::NumericOverflow,
    {
        proof {
            lemma_mul_bound(self@.x, factor@.n, 0x7fff_ffff, 0x7fff_ffff_ffff_ffff);
            lemma_mul_bound(self@.y, factor@.n, 0x7fff_ffff, 0x7fff_ffff_ffff_ffff);
            lemma_mul_bound(self@.z, factor@.n, 0x7fff_ffff, 0x7fff_ffff_ffff_ffff);
            lemma_mul_bound(self@.w, factor@.n, 0x7fff_ffff, 0x7fff_ffff_ffff_ffff);
            lemma_mul_bound(self@.d, factor@.d, 0x7fff_ffff, 0x7fff_ffff_ffff_ffff);
        }
        let x: i128 = (self.x as i128) * (factor.num as i128);
        let y: i128 = (self.y as i128) * (factor.num as i128);
        let z: i128 = (self.z as i128) * (factor.num as i128);
        let w: i128 = (self.w as i128) * (factor.num as i128);
        let d: i128 = (self.den as i128) * (factor.den as i128);
        match Vector4::fit(x, y, z, w, d) {
            Ok(v) => {
                *self = v;
                Ok(())
            }
            Err(e) => Err(e),
        }
    }

    /// See `Vector2::normalize`: on success the squared length is exactly one.
    pub fn normalize(&mut self) -> (r: Result<(), MathError>)
        requires
            old(self).wf(),
        ensures
            r is Ok ==> final(self).wf() && ratio_eq(v4_len2(final(self)@), ratio_of_int(1))
                && final(self)@.x == old(self)@.x && final(self)@.y == old(self)@.y
                && final(self)@.z == old(self)@.z && final(self)@.w == old(self)@.w
                && final(self)@.d * final(self)@.d == v4_len2(old(self)@).n,
            (r is Ok) == (v4_len2(old(self)@).n != 0
                && (exists|s: int| 0 < s <= 0x7fff_ffff && #[trigger] (s * s) == v4_len2(old(self)@).n)),
            r is Err ==> *final(self) == *old(self),
            v4_len2(old(self)@).n == 0 ==> (r matches Err(e) ==> e == MathError::DegenerateGeometry),
            v4_len2(old(self)@).n != 0 ==> (r matches Err(e) ==> e == MathError::NumericOverflow),
    {
        let sum: i128 = wsq32(self.x) as i128 + wsq32(self.y) as i128 + wsq32(self.z) as i128
            + wsq32(self.w) as i128;
        match unit_den(sum) {
            Ok(s) => {
                self.den = s;
                Ok(())
            }
            Err(e) => Err(e),
        }
    }

    fn fit(x: i128, y: i128, z: i128, w: i128, d: i128) -> (r: Result<Vector4, MathError>)
        ensures
            r matches Ok(v) ==> v.wf()
                && v@ == (Vec4Model {
                    x: x as int, y: y as int, z: z as int, w: w as int, d: d as int }),
            (r is Ok) == v4_fits(Vec4Model {
                x: x as int, y: y as int, z: z as int, w: w as int, d: d as int }),
            r matches Err(e) ==> e == MathError::NumericOverflow,
    {
        if 0 < d && d <= 0x7fff_ffff && -0x7fff_ffff <= x && x <= 0x7fff_ffff
            && -0x7fff_ffff <= y && y <= 0x7fff_ffff && -0x7fff_ffff <= z && z <= 0x7fff_ffff
            && -0x7fff_ffff <= w && w <= 0x7fff_ffff {
            Ok(Vector4 { x: x as i32, y: y as i32, z: z as i32, w: w as i32, den: d as i32 })
        } else {
            Err(MathError::NumericOverflow)
        }
    }
}

// ------------------------------------------------------------ shared parts

/// Flipping the signs of numerator and denominator keeps the value.
proof fn lemma_flip_eq(n: int, d: int)
    by (nonlinear_arith)
    ensures
        ratio_eq(Ratio { n: -n, d: -d }, Ratio { n: n, d: d }),
{
}

/// One component of `a + (b - a) * t` over the common denominator.
fn lerp_comp(ax: i32, ad: i32, bx: i32, bd: i32, t: &Rat) -> (r: i128)
    requires
        t.wf(),
    ensures
        r as int == (ax as int) * (bd as int) * t@.d
            + ((bx as int) * (ad as int) - (ax as int) * (bd as int)) * t@.n,
{
    let base: i64 = wmul32(ax, bd);
    let diff: i128 = wmul32(bx, ad) as i128 - base as i128;
    proof {
        lemma_mul_bound(base as int, t@.d, 0x4000_0000_0000_0000, 0x7fff_ffff_ffff_ffff);
        lemma_mul_bound(diff as int, t@.n, 0x8000_0000_0000_0000, 0x7fff_ffff_ffff_ffff);
    }
    (base as i128) * (t.den as i128) + diff * (t.num as i128)
}

/// Builds `sqrt(sum) / den` when `sum` is a perfect square.
pub(crate) fn sqrt_over(sum: i128, den: i32) -> (r: Result<Rat, MathError>)
    requires
        0 <= sum <= 0xffff_ffff_ffff_ffff,
        0 < den,
    ensures
        r matches Ok(len) ==> len.wf() && len@.n >= 0
            && ratio_mul(len@, len@) == (Ratio { n: sum as int, d: (den as int) * (den as int) }),
        (r is Ok) == (exists|s: int| 0 <= s && #[trigger] (s * s) == sum as int),
        r matches Err(e) ==> e == MathError::NumericOverflow,
{
    match exact_sqrt(sum as u128) {
        Some(s) => {
            proof {
                if s as int >= 0x1_0000_0000 {
                    lemma_sq_monotonic(0x1_0000_0000, s as int);
                    assert(0x1_0000_0000int * 0x1_0000_0000 > 0xffff_ffff_ffff_ffff) by (nonlinear_arith);
                }
            }
            Ok(Rat { num: s as i64, den: den as i64 })
        }
        None => Err(MathError::NumericOverflow),
    }
}

/// The denominator that rescales a vector with squared-length numerator
/// `sum` to length one: the exact square root of `sum`, if representable.
pub(crate) fn unit_den(sum: i128) -> (r: Result<i32, MathError>)
    requires
        0 <= sum <= 0xffff_ffff_ffff_ffff,
    ensures
        r matches Ok(s) ==> 0 < s && (s as int) * (s as int) == sum as int,
        (r is Ok) == (sum != 0
            && (exists|s: int| 0 < s <= 0x7fff_ffff && #[trigger] (s * s) == sum as int)),
        sum == 0 ==> (r matches Err(e) ==> e == MathError::DegenerateGeometry),
        sum != 0 ==> (r matches Err(e) ==> e == MathError::NumericOverflow),
{
    if sum == 0 {
        return Err(MathError::DegenerateGeometry);
    }
    match exact_sqrt(sum as u128) {
        Some(s) => {
            if s <= 0x7fff_ffff {
                proof {
                    if s as int == 0 {
                        assert((0int) * 0 == 0) by (nonlinear_arith);
                    }
                }
                Ok(s as i32)
            } else {
                proof {
                    assert forall|t: int| 0 < t <= 0x7fff_ffff implies #[trigger] (t * t) != sum as int by {
                        lemma_sq_monotonic(t, 0x7fff_ffff);
                        lemma_sq_monotonic(0x8000_0000int, s as int);
                    }
                }
                Err(MathError::NumericOverflow)
            }
        }
        None => Err(MathError::NumericOverflow),
    }
}

/// Clamps the exact ratio `dn / sn` into `[-1, 1]`.
fn clamp_unit(dn: i128, sn: i64) -> (c: Rat)
    requires
        0 < sn,
    ensures
        c.wf(),
        c@ == ratio_clamp_unit(Ratio { n: dn as int, d: sn as int }),
        ratio_le(ratio_of_int(-1), c@),
        ratio_le(c@, ratio_of_int(1)),
{
    let ghost dni: int = dn as int;
    let ghost sni: int = sn as int;
    if dn < -(sn as i128) {
        proof {
            assert((-1int) * sni <= -sni && -sni <= dni ==> (-1int) * 1 <= (-1int) * 1);
            assert((-1int) * sni == -sni) by (nonlinear_arith);
        }
        Rat { num: -1, den: 1 }
    } else if dn > sn as i128 {
        proof {
            assert((1int) * sni == sni) by (nonlinear_arith);
        }
        Rat { num: 1, den: 1 }
    } else {
        proof {
            assert((-1int) * sni == -sni) by (nonlinear_arith);
            assert((1int) * sni == sni) by (nonlinear_arith);
            assert(dni * 1 == dni) by (nonlinear_arith);
        }
        Rat { num: dn as i64, den: sn }
    }
}

/// The clamped cosine shared by the `cosAngle` operations: `dn` is the dot
/// numerator, `la2`/`lb2` the squared-length numerators, all over one common
/// denominator that cancels in the quotient.
#[verifier::rlimit(50)]
fn clamped_cos(la2: i128, lb2: i128, dn: i128) -> (r: Result<Rat, MathError>)
    requires
        0 <= la2 <= 0xffff_ffff_ffff_ffff,
        0 <= lb2 <= 0xffff_ffff_ffff_ffff,
        -0x1_0000_0000_0000_0000 <= dn <= 0x1_0000_0000_0000_0000,
    ensures
        r matches Ok(c) ==> c.wf() && ratio_le(ratio_of_int(-1), c@) && ratio_le(c@, ratio_of_int(1)),
        r matches Ok(c) ==> (exists|s: int|
            0 < s && #[trigger] (s * s) == (la2 as int) * (lb2 as int)
            && c@ == ratio_clamp_unit(Ratio { n: dn as int, d: s })),
        (r is Ok) == (la2 != 0 && lb2 != 0
            && (exists|s: int| 0 < s <= 0x7fff_ffff_ffff_ffff
                && #[trigger] (s * s) == (la2 as int) * (lb2 as int))),
        (la2 == 0 || lb2 == 0) ==> (r matches Err(e) ==> e == MathError::DegenerateGeometry),
        (la2 != 0 && lb2 != 0) ==> (r matches Err(e) ==> e == MathError::NumericOverflow),
{
    if la2 == 0 || lb2 == 0 {
        return Err(MathError::DegenerateGeometry);
    }
    proof {
        lemma_mul_bound(la2 as int, lb2 as int, 0xffff_ffff_ffff_ffff, 0xffff_ffff_ffff_ffff);
        assert((la2 as int) * (lb2 as int) > 0) by (nonlinear_arith)
            requires la2 as int > 0 && lb2 as int > 0;
    }
    let p: u128 = (la2 as u128) * (lb2 as u128);
    match exact_sqrt(p) {
        Some(s) => {
            if s <= 0x7fff_ffff_ffff_ffff {
                let sn: i64 = s as i64;
                proof {
                    if sn as int == 0 {
                        assert((0int) * 0 == 0) by (nonlinear_arith);
                    }
                }
                Ok(clamp_unit(dn, sn))
            } else {
                proof {
                    assert forall|t: int| 0 < t <= 0x7fff_ffff_ffff_ffff
                        implies #[trigger] (t * t) != (la2 as int) * (lb2 as int) by {
                        lemma_sq_monotonic(t, 0x7fff_ffff_ffff_ffff);
                        lemma_sq_monotonic(0x8000_0000_0000_0000int, s as int);
                    }
                }
                Err(MathError::NumericOverflow)
            }
        }
        None => Err(MathError::NumericOverflow),
    }
}

// ------------------------------------------------------------------- laws

/// The dot product is symmetric: `dot(a, b) == dot(b, a)`.
pub proof fn lemma_dot_symmetric_v2(a: Vec2Model, b: Vec2Model)
    ensures
        v2_dot(a, b) == v2_dot(b, a),
{
    assert(a.x * b.x + a.y * b.y == b.x * a.x + b.y * a.y) by (nonlinear_arith);
    assert(a.d * b.d == b.d * a.d) by (nonlinear_arith);
}

/// The dot product is symmetric: `dot(a, b) == dot(b, a)`.
pub proof fn lemma_dot_symmetric_v3(a: Vec3Model, b: Vec3Model)
    ensures
        v3_dot(a, b) == v3_dot(b, a),
{
    assert(a.x * b.x + a.y * b.y + a.z * b.z == b.x * a.x + b.y * a.y + b.z * a.z)
        by (nonlinear_arith);
    assert(a.d * b.d == b.d * a.d) by (nonlinear_arith);
}

/// The dot product is symmetric: `dot(a, b) == dot(b, a)`.
pub proof fn lemma_dot_symmetric_v4(a: Vec4Model, b: Vec4Model)
    ensures
        v4_dot(a, b) == v4_dot(b, a),
{
    assert(a.x * b.x + a.y * b.y + a.z * b.z + a.w * b.w
        == b.x * a.x + b.y * a.y + b.z * a.z + b.w * a.w) by (nonlinear_arith);
    assert(a.d * b.d == b.d * a.d) by (nonlinear_arith);
}

/// The cross product is antisymmetric: `cross(a, b) == -cross(b, a)`.
pub proof fn lemma_cross_antisymmetric(a: Vec3Model, b: Vec3Model)
    ensures
        v3_cross(a, b) == v3_neg(v3_cross(b, a)),
{
    assert(a.y * b.z - a.z * b.y == -(b.y * a.z - b.z * a.y)) by (nonlinear_arith);
    assert(a.z * b.x - a.x * b.z == -(b.z * a.x - b.x * a.z)) by (nonlinear_arith);
    assert(a.x * b.y - a.y * b.x == -(b.x * a.y - b.y * a.x)) by (nonlinear_arith);
    assert(a.d * b.d == b.d * a.d) by (nonlinear_arith);
}

} // verus!
