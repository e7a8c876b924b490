//! General-purpose scalar helpers shared by the pipeline.

use vstd::prelude::*;
use crate::rat::{Rat, Ratio, MathError, ratio_fits, rat_small, lemma_mul_bound};

verus! {

/// `a + (b - a) * t`, over the common denominator of the three inputs.
pub open spec fn interpolate_spec(a: Ratio, b: Ratio, t: Ratio) -> Ratio {
    Ratio {
        n: a.n * b.d * t.d + (b.n * a.d - a.n * b.d) * t.n,
        d: a.d * b.d * t.d,
    }
}

/// Scalar helpers with no state of their own.
pub struct GeneralMath {
}

impl GeneralMath {
    /// Linear interpolation `a + (b - a) * t`, exact; `t` outside `[0, 1]`
    /// extrapolates.
    pub fn interpolate(a: &Rat, b: &Rat, t: &Rat) -> (r: Result<Rat, MathError>)
        requires
            a.wf() && rat_small(a@),
            b.wf() && rat_small(b@),
            t.wf() && rat_small(t@),
        ensures
            r matches Ok(q) ==> q.wf() && q@ == interpolate_spec(a@, b@, t@),
            (r is Ok) == ratio_fits(interpolate_spec(a@, b@, t@)),
            r matches Err(e) ==> e == MathError::NumericOverflow,
    {
        proof {
            lemma_mul_bound(a@.n, b@.d, 0x7fff_ffff, 0x7fff_ffff);
            lemma_mul_bound(a@.n * b@.d, t@.d, 0x4000_0000_0000_0000, 0x7fff_ffff);
            lemma_mul_bound(b@.n, a@.d, 0x7fff_ffff, 0x7fff_ffff);
            lemma_mul_bound(b@.n * a@.d - a@.n * b@.d, t@.n,
                0x8000_0000_0000_0000, 0x7fff_ffff);
            lemma_mul_bound(a@.d, b@.d, 0x7fff_ffff, 0x7fff_ffff);
            lemma_mul_bound(a@.d * b@.d, t@.d, 0x4000_0000_0000_0000, 0x7fff_ffff);
        }
        let base: i128 = ((a.num as i128) * (b.den as i128)) * (t.den as i128);
        let diff: i128 = (b.num as i128) * (a.den as i128) - (a.num as i128) * (b.den as i128);
        let n: i128 = base + diff * (t.num as i128);
        let d: i128 = ((a.den as i128) * (b.den as i128)) * (t.den as i128);
        Rat::fit(n, d)
    }
}

} // verus!
