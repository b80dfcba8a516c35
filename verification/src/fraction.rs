//! An exact covering amount in the unit interval.

use vstd::prelude::*;

verus! {

/// A fraction `num / den` with `0 <= num <= den` and `den > 0`, used for a
/// slider's covering amount.  Keeping numerator and denominator separate
/// makes the slider's linear mapping exact.
#[derive(Clone, Copy, PartialEq, Eq, Structural, Debug)]
pub struct Fraction {
    pub num: i64,
    pub den: i64,
}

impl Fraction {
    /// The fraction lies in the unit interval.
    pub open spec fn wf(&self) -> bool {
        0 < self.den && 0 <= self.num <= self.den
    }

    /// Builds a fraction.
    pub fn new(num: i64, den: i64) -> (r: Fraction)
        requires
            0 < den,
            0 <= num <= den,
        ensures
            r.num == num,
            r.den == den,
            r.wf(),
    {
        Fraction { num, den }
    }
}

} // verus!
