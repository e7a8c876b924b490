//! Exact scalar arithmetic: a rational number as an `i64` numerator over a
//! positive `i64` denominator. Operations compute the exact mathematical
//! result and fail with `MathError::NumericOverflow` when it cannot be
//! stored, instead of rounding.

use vstd::prelude::*;

verus! {

/// Mathematical model of a rational: an integer numerator over an integer
/// denominator (positive for well-formed values).
pub ghost struct Ratio {
    pub n: int,
    pub d: int,
}

/// Errors shared by the whole library: an operation met geometry it cannot
/// act on (zero denominator, zero-length vector), or an exact result that
/// does not fit the fixed-width representation.
#[derive(Clone, Copy, Debug, PartialEq, Eq, Structural)]
pub enum MathError {
    DegenerateGeometry,
    NumericOverflow,
}

/// Numerators are kept out of `i64::MIN` so that negation never overflows.
pub open spec fn in_i64(x: int) -> bool {
    -0x7fff_ffff_ffff_ffff <= x <= 0x7fff_ffff_ffff_ffff
}

pub open spec fn ratio_wf(a: Ratio) -> bool {
    0 < a.d <= 0x7fff_ffff_ffff_ffff && in_i64(a.n)
}

/// A ratio representable by `Rat`.
pub open spec fn ratio_fits(a: Ratio) -> bool {
    ratio_wf(a)
}

/// Value equality of two ratios, by cross-multiplication.
pub open spec fn ratio_eq(a: Ratio, b: Ratio) -> bool {
    a.n * b.d == b.n * a.d
}

/// `a < b`, valid when both denominators are positive.
pub open spec fn ratio_lt(a: Ratio, b: Ratio) -> bool {
    a.n * b.d < b.n * a.d
}

pub open spec fn ratio_le(a: Ratio, b: Ratio) -> bool {
    a.n * b.d <= b.n * a.d
}

pub open spec fn ratio_add(a: Ratio, b: Ratio) -> Ratio {
    Ratio { n: a.n * b.d + b.n * a.d, d: a.d * b.d }
}

pub open spec fn ratio_sub(a: Ratio, b: Ratio) -> Ratio {
    Ratio { n: a.n * b.d - b.n * a.d, d: a.d * b.d }
}

pub open spec fn ratio_mul(a: Ratio, b: Ratio) -> Ratio {
    Ratio { n: a.n * b.n, d: a.d * b.d }
}

/// Division flips the sign of the divisor's numerator into the result so the
/// denominator stays positive; undefined (not well-formed) when `b.n == 0`.
pub open spec fn ratio_div(a: Ratio, b: Ratio) -> Ratio {
    if b.n >= 0 {
        Ratio { n: a.n * b.d, d: a.d * b.n }
    } else {
        Ratio { n: -(a.n * b.d), d: -(a.d * b.n) }
    }
}

pub open spec fn ratio_neg(a: Ratio) -> Ratio {
    Ratio { n: -a.n, d: a.d }
}

pub open spec fn ratio_of_int(n: int) -> Ratio {
    Ratio { n: n, d: 1 }
}

/// Clamps a ratio into `[-1, 1]`; identity inside that range.
pub open spec fn ratio_clamp_unit(a: Ratio) -> Ratio
    recommends a.d > 0,
{
    if a.n < -a.d {
        Ratio { n: -1, d: 1 }
    } else if a.n > a.d {
        Ratio { n: 1, d: 1 }
    } else {
        a
    }
}

/// Truncation toward zero, as `f64 as i64` would round.
pub open spec fn ratio_trunc(a: Ratio) -> int
    recommends a.d > 0,
{
    if a.n >= 0 {
        a.n / a.d
    } else {
        -((-a.n) / a.d)
    }
}

/// A rational whose numerator and denominator both fit in 32 bits; the
/// precision admitted by the geometric transform operations.
pub open spec fn rat_small(a: Ratio) -> bool {
    -0x7fff_ffff <= a.n <= 0x7fff_ffff && 0 < a.d <= 0x7fff_ffff
}

/// Bounds a product of two bounded integers.
pub proof fn lemma_mul_bound(x: int, y: int, bx: int, by: int)
    by (nonlinear_arith)
    requires
        -bx <= x <= bx,
        -by <= y <= by,
        0 <= bx,
        0 <= by,
    ensures
        -(bx * by) <= x * y <= bx * by,
{
}

/// An exact rational scalar.
#[derive(Clone, Copy, Debug, PartialEq, Eq, Structural)]
pub struct Rat {
    pub num: i64,
    pub den: i64,
}

impl View for Rat {
    type V = Ratio;

    open spec fn view(&self) -> Ratio {
        Ratio { n: self.num as int, d: self.den as int }
    }
}

impl Rat {
    /// Denominator positive; numerator clear of `i64::MIN`.
    pub open spec fn wf(&self) -> bool {
        ratio_wf(self@)
    }

    /// Builds `num / den`, moving a negative denominator's sign into the
    /// numerator. A zero denominator is degenerate.
    pub fn new(num: i64, den: i64) -> (r: Result<Rat, MathError>)
        ensures
            r matches Ok(q) ==> q.wf() && ratio_eq(q@, Ratio { n: num as int, d: den as int }),
            den == 0 ==> (r matches Err(e) && e == MathError::DegenerateGeometry),
            den != 0 ==> (r matches Err(e) ==> e == MathError::NumericOverflow),
            den > 0 && num > i64::MIN ==> r is Ok,
            den < 0 && den > i64::MIN && num > i64::MIN ==> r is Ok,
    {
        if den == 0 {
            return Err(MathError::DegenerateGeometry);
        }
        if num == i64::MIN || den == i64::MIN {
            return Err(MathError::NumericOverflow);
        }
        if den < 0 {
            let q = Rat { num: -num, den: -den };
            assert(ratio_eq(q@, Ratio { n: num as int, d: den as int })) by (nonlinear_arith)
                requires q@.n == -(num as int) && q@.d == -(den as int);
            Ok(q)
        } else {
            Ok(Rat { num, den })
        }
    }

    /// The integer `n` as a rational.
    pub fn from_integer(n: i64) -> (r: Rat)
        requires
            n > i64::MIN,
        ensures
            r.wf(),
            r@ == ratio_of_int(n as int),
    {
        Rat { num: n, den: 1 }
    }

    pub fn zero() -> (r: Rat)
        ensures
            r.wf(),
            r@ == ratio_of_int(0),
    {
        Rat { num: 0, den: 1 }
    }

    pub fn one() -> (r: Rat)
        ensures
            r.wf(),
            r@ == ratio_of_int(1),
    {
        Rat { num: 1, den: 1 }
    }

    /// Exact sum; overflow is reported, never rounded away.
    pub fn add(&self, other: &Rat) -> (r: Result<Rat, MathError>)
        requires
            self.wf(),
            other.wf(),
        ensures
            r matches Ok(q) ==> q.wf() && q@ == ratio_add(self@, other@),
            (r is Ok) == ratio_fits(ratio_add(self@, other@)),
            r matches Err(e) ==> e == MathError::NumericOverflow,
    {
        proof {
            lemma_mul_bound(self.num as int, other.den as int, 0x7fff_ffff_ffff_ffff, 0x7fff_ffff_ffff_ffff);
            lemma_mul_bound(other.num as int, self.den as int, 0x7fff_ffff_ffff_ffff, 0x7fff_ffff_ffff_ffff);
            lemma_mul_bound(self.den as int, other.den as int, 0x7fff_ffff_ffff_ffff, 0x7fff_ffff_ffff_ffff);
        }
        let n: i128 = self.num as i128 * other.den as i128 + other.num as i128 * self.den as i128;
        let d: i128 = self.den as i128 * other.den as i128;
        Rat::fit(n, d)
    }

    /// Exact difference.
    pub fn sub(&self, other: &Rat) -> (r: Result<Rat, MathError>)
        requires
            self.wf(),
            other.wf(),
        ensures
            r matches Ok(q) ==> q.wf() && q@ == ratio_sub(self@, other@),
            (r is Ok) == ratio_fits(ratio_sub(self@, other@)),
            r matches Err(e) ==> e == MathError::NumericOverflow,
    {
        proof {
            lemma_mul_bound(self.num as int, other.den as int, 0x7fff_ffff_ffff_ffff, 0x7fff_ffff_ffff_ffff);
            lemma_mul_bound(other.num as int, self.den as int, 0x7fff_ffff_ffff_ffff, 0x7fff_ffff_ffff_ffff);
            lemma_mul_bound(self.den as int, other.den as int, 0x7fff_ffff_ffff_ffff, 0x7fff_ffff_ffff_ffff);
        }
        let n: i128 = self.num as i128 * other.den as i128 - other.num as i128 * self.den as i128;
        let d: i128 = self.den as i128 * other.den as i128;
        Rat::fit(n, d)
    }

    /// Exact product.
    pub fn mul(&self, other: &Rat) -> (r: Result<Rat, MathError>)
        requires
            self.wf(),
            other.wf(),
        ensures
            r matches Ok(q) ==> q.wf() && q@ == ratio_mul(self@, other@),
            (r is Ok) == ratio_fits(ratio_mul(self@, other@)),
            r matches Err(e) ==> e == MathError::NumericOverflow,
    {
        proof {
            lemma_mul_bound(self.num as int, other.num as int, 0x7fff_ffff_ffff_ffff, 0x7fff_ffff_ffff_ffff);
            lemma_mul_bound(self.den as int, other.den as int, 0x7fff_ffff_ffff_ffff, 0x7fff_ffff_ffff_ffff);
        }
        let n: i128 = self.num as i128 * other.num as i128;
        let d: i128 = self.den as i128 * other.den as i128;
        Rat::fit(n, d)
    }

    /// Exact quotient; dividing by zero is degenerate.
    pub fn div(&self, other: &Rat) -> (r: Result<Rat, MathError>)
        requires
            self.wf(),
            other.wf(),
        ensures
            r matches Ok(q) ==> q.wf() && q@ == ratio_div(self@, other@),
            (r is Ok) == (other@.n != 0 && ratio_fits(ratio_div(self@, other@))),
            other@.n == 0 ==> (r matches Err(e) ==> e == MathError::DegenerateGeometry),
            other@.n != 0 ==> (r matches Err(e) ==> e == MathError::NumericOverflow),
    {
        if other.num == 0 {
            return Err(MathError::DegenerateGeometry);
        }
        proof {
            lemma_mul_bound(self.num as int, other.den as int, 0x7fff_ffff_ffff_ffff, 0x7fff_ffff_ffff_ffff);
            lemma_mul_bound(self.den as int, other.num as int, 0x7fff_ffff_ffff_ffff, 0x7fff_ffff_ffff_ffff);
        }
        let mut n: i128 = self.num as i128 * other.den as i128;
        let mut d: i128 = self.den as i128 * other.num as i128;
        proof {
            let ghost dn: int = d as int;
            assert(((dn > 0) == (other@.n > 0)) && ((dn < 0) == (other@.n < 0)))
                by (nonlinear_arith)
                requires
                    dn == self@.d * other@.n,
                    self@.d > 0;
        }
        if d < 0 {
            n = -n;
            d = -d;
        }
        Rat::fit(n, d)
    }

    /// Exact negation; total, since well-formed numerators avoid `i64::MIN`.
    pub fn neg(&self) -> (r: Rat)
        requires
            self.wf(),
        ensures
            r.wf(),
            r@ == ratio_neg(self@),
    {
        Rat { num: -self.num, den: self.den }
    }

    /// Stores an exact ratio held in wide intermediates, if it fits.
    pub fn fit(n: i128, d: i128) -> (r: Result<Rat, MathError>)
        ensures
            r matches Ok(q) ==> q.wf() && q@ == (Ratio { n: n as int, d: d as int }),
            (r is Ok) == ratio_fits(Ratio { n: n as int, d: d as int }),
            r matches Err(e) ==> e == MathError::NumericOverflow,
    {
        if 0 < d && d <= i64::MAX as i128 && -(i64::MAX as i128) <= n && n <= i64::MAX as i128 {
            Ok(Rat { num: n as i64, den: d as i64 })
        } else {
            Err(MathError::NumericOverflow)
        }
    }

    /// Exact value comparison `self < other`.
    pub fn lt(&self, other: &Rat) -> (r: bool)
        requires
            self.wf(),
            other.wf(),
        ensures
            r == ratio_lt(self@, other@),
    {
        proof {
            lemma_mul_bound(self.num as int, other.den as int, 0x7fff_ffff_ffff_ffff, 0x7fff_ffff_ffff_ffff);
            lemma_mul_bound(other.num as int, self.den as int, 0x7fff_ffff_ffff_ffff, 0x7fff_ffff_ffff_ffff);
        }
        (self.num as i128) * (other.den as i128) < (other.num as i128) * (self.den as i128)
    }

    /// Exact value comparison `self <= other`.
    pub fn le(&self, other: &Rat) -> (r: bool)
        requires
            self.wf(),
            other.wf(),
        ensures
            r == ratio_le(self@, other@),
    {
        proof {
            lemma_mul_bound(self.num as int, other.den as int, 0x7fff_ffff_ffff_ffff, 0x7fff_ffff_ffff_ffff);
            lemma_mul_bound(other.num as int, self.den as int, 0x7fff_ffff_ffff_ffff, 0x7fff_ffff_ffff_ffff);
        }
        (self.num as i128) * (other.den as i128) <= (other.num as i128) * (self.den as i128)
    }

    /// Exact value equality (cross-multiplied, so `2/4` equals `1/2`).
    pub fn eq_value(&self, other: &Rat) -> (r: bool)
        requires
            self.wf(),
            other.wf(),
        ensures
            r == ratio_eq(self@, other@),
    {
        proof {
            lemma_mul_bound(self.num as int, other.den as int, 0x7fff_ffff_ffff_ffff, 0x7fff_ffff_ffff_ffff);
            lemma_mul_bound(other.num as int, self.den as int, 0x7fff_ffff_ffff_ffff, 0x7fff_ffff_ffff_ffff);
        }
        (self.num as i128) * (other.den as i128) == (other.num as i128) * (self.den as i128)
    }

    pub fn is_zero(&self) -> (r: bool)
        requires
            self.wf(),
        ensures
            r == (self@.n == 0),
    {
        self.num == 0
    }

    /// Truncation toward zero, as a float-to-integer cast would round.
    pub fn trunc(&self) -> (r: i64)
        requires
            self.wf(),
        ensures
            r == ratio_trunc(self@),
    {
        if self.num >= 0 {
            proof {
                vstd::arithmetic::div_mod::lemma_div_nonincreasing(self.num as int, self.den as int);
                vstd::arithmetic::div_mod::lemma_div_pos_is_pos(self.num as int, self.den as int);
            }
            self.num / self.den
        } else {
            let m: i64 = -self.num;
            proof {
                vstd::arithmetic::div_mod::lemma_div_nonincreasing(m as int, self.den as int);
                vstd::arithmetic::div_mod::lemma_div_pos_is_pos(m as int, self.den as int);
            }
            -(m / self.den)
        }
    }
}

/// Widening product of two `i32` values, with its bound.
pub fn wmul32(a: i32, b: i32) -> (r: i64)
    ensures
        r as int == (a as int) * (b as int),
        -0x4000_0000_0000_0000 <= r as int <= 0x4000_0000_0000_0000,
        a != i32::MIN && b != i32::MIN
            ==> -0x3fff_ffff_0000_0001 <= r as int <= 0x3fff_ffff_0000_0001,
{
    proof {
        lemma_mul_bound(a as int, b as int, 0x8000_0000, 0x8000_0000);
        if a != i32::MIN && b != i32::MIN {
            lemma_mul_bound(a as int, b as int, 0x7fff_ffff, 0x7fff_ffff);
        }
    }
    (a as i64) * (b as i64)
}

/// Widening square of an `i32` value: non-negative and bounded.
pub fn wsq32(a: i32) -> (r: i64)
    ensures
        r as int == (a as int) * (a as int),
        0 <= r as int <= 0x4000_0000_0000_0000,
        a != i32::MIN ==> r as int <= 0x3fff_ffff_0000_0001,
{
    proof {
        lemma_mul_bound(a as int, a as int, 0x8000_0000, 0x8000_0000);
        lemma_sq_nonneg(a as int);
        if a != i32::MIN {
            lemma_mul_bound(a as int, a as int, 0x7fff_ffff, 0x7fff_ffff);
        }
    }
    (a as i64) * (a as i64)
}

/// Widening product of two `i64` values.
pub fn wmul64(a: i64, b: i64) -> (r: i128)
    ensures
        r as int == (a as int) * (b as int),
{
    proof {
        lemma_mul_bound(a as int, b as int, 0x8000_0000_0000_0000, 0x8000_0000_0000_0000);
    }
    (a as i128) * (b as i128)
}

/// Truncation stays within any bound on the numerator.
pub proof fn lemma_trunc_bound(a: Ratio, b: int)
    requires
        a.d > 0,
        -b <= a.n <= b,
        0 <= b,
    ensures
        -b <= ratio_trunc(a) <= b,
{
    if a.n >= 0 {
        vstd::arithmetic::div_mod::lemma_div_nonincreasing(a.n, a.d);
        vstd::arithmetic::div_mod::lemma_div_pos_is_pos(a.n, a.d);
    } else {
        vstd::arithmetic::div_mod::lemma_div_nonincreasing(-a.n, a.d);
        vstd::arithmetic::div_mod::lemma_div_pos_is_pos(-a.n, a.d);
    }
}

/// Multiplies a value by a sign (`1` or `-1`), exactly.
pub fn mul_sign(a: i128, sg: i64) -> (r: i128)
    requires
        sg == 1 || sg == -1,
        -0x4000_0000_0000_0000_0000_0000_0000_0000 <= a as int
            <= 0x4000_0000_0000_0000_0000_0000_0000_0000,
    ensures
        r as int == (a as int) * (sg as int),
{
    proof {
        lemma_mul_bound(a as int, sg as int,
            0x4000_0000_0000_0000_0000_0000_0000_0000, 1);
    }
    a * (sg as i128)
}

/// A square is never negative.
pub proof fn lemma_sq_nonneg(a: int)
    by (nonlinear_arith)
    ensures
        0 <= a * a,
{
}

/// Largest `s` with `s * s <= v`, by binary search.
pub fn floor_sqrt(v: u128) -> (r: u64)
    ensures
        (r as int) * (r as int) <= v as int,
        (v as int) < (r as int + 1) * (r as int + 1),
{
    let mut lo: u64 = 0;
    let mut hi: u64 = u64::MAX;
    proof {
        assert((u64::MAX as int + 1) * (u64::MAX as int + 1) > u128::MAX as int) by (nonlinear_arith);
    }
    while lo < hi
        invariant
            lo <= hi,
            (lo as int) * (lo as int) <= v as int,
            (v as int) < (hi as int + 1) * (hi as int + 1),
        decreases hi - lo,
    {
        let mid: u64 = hi - (hi - lo) / 2;
        proof {
            lemma_mul_bound(mid as int, mid as int, u64::MAX as int, u64::MAX as int);
            assert((u64::MAX as int) * (u64::MAX as int) <= u128::MAX as int) by (nonlinear_arith);
        }
        if (mid as u128) * (mid as u128) <= v {
            lo = mid;
        } else {
            hi = mid - 1;
        }
    }
    lo
}

/// `v` is a perfect square.
pub open spec fn has_root(v: int) -> bool {
    exists|s: int| 0 <= s && #[trigger] (s * s) == v
}

/// The non-negative square root of a perfect square (unique, by
/// `lemma_root_unique`).
pub open spec fn root_of(v: int) -> int {
    choose|s: int| 0 <= s && #[trigger] (s * s) == v
}

/// A non-negative square root is the canonical one.
pub proof fn lemma_root_unique(v: int, s: int)
    requires
        0 <= s,
        s * s == v,
    ensures
        has_root(v),
        root_of(v) == s,
{
    assert(has_root(v));
    let s0: int = root_of(v);
    assert(0 <= s0 && s0 * s0 == v);
    if s0 < s {
        lemma_sq_monotonic(s0 + 1, s);
        assert(s0 * s0 < (s0 + 1) * (s0 + 1)) by (nonlinear_arith)
            requires s0 >= 0;
    } else if s < s0 {
        lemma_sq_monotonic(s + 1, s0);
        assert(s * s < (s + 1) * (s + 1)) by (nonlinear_arith)
            requires s >= 0;
    }
}

/// The exact square root of `v`, when `v` is a perfect square.
pub fn exact_sqrt(v: u128) -> (r: Option<u64>)
    ensures
        r matches Some(s) ==> (s as int) * (s as int) == v as int
            && has_root(v as int) && root_of(v as int) == s as int,
        r is None ==> (forall|s: int| 0 <= s ==> #[trigger] (s * s) != v as int),
        r is None ==> !has_root(v as int),
{
    let s: u64 = floor_sqrt(v);
    if (s as u128) * (s as u128) == v {
        proof {
            lemma_root_unique(v as int, s as int);
        }
        Some(s)
    } else {
        proof {
            assert forall|t: int| 0 <= t implies #[trigger] (t * t) != v as int by {
                if t <= s as int {
                    lemma_sq_monotonic(t, s as int);
                } else {
                    lemma_sq_monotonic(s as int + 1, t);
                }
            }
        }
        None
    }
}

/// Squares respect order on non-negative integers.
pub proof fn lemma_sq_monotonic(a: int, b: int)
    by (nonlinear_arith)
    requires
        0 <= a <= b,
    ensures
        a * a <= b * b,
{
}


} // verus!
