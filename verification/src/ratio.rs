//! Non-negative rational numbers, used for the hyperparameters and for the
//! probabilities that are derived from them.

use vstd::prelude::*;

verus! {

/// The rational number `numer / denom`.
#[derive(Clone, Copy, Debug, PartialEq, Eq, Structural)]
pub struct Ratio {
    pub numer: u64,
    pub denom: u64,
}

impl Ratio {
    /// A ratio is well formed when its denominator is not zero.
    pub open spec fn wf(&self) -> bool {
        self.denom > 0
    }

    /// Well formed and greater than zero.
    pub open spec fn is_positive(&self) -> bool {
        self.denom > 0 && self.numer > 0
    }

    /// Well formed and within `[0, 1]`.
    pub open spec fn is_probability(&self) -> bool {
        0 < self.denom && self.numer <= self.denom
    }

    /// The ratio `numer / denom`, or `None` when `denom` is zero.
    pub fn new(numer: u64, denom: u64) -> (r: Option<Ratio>)
        ensures
            denom == 0 <==> r.is_none(),
            denom != 0 ==> r == Some(Ratio { numer, denom }),
    {
        if denom == 0 {
            None
        } else {
            Some(Ratio { numer, denom })
        }
    }

    /// The whole number `n`.
    pub fn whole(n: u64) -> (r: Ratio)
        ensures
            r == (Ratio { numer: n, denom: 1 }),
    {
        Ratio { numer: n, denom: 1 }
    }

    /// The reciprocal `denom / numer` of a positive ratio.
    pub fn reciprocal(&self) -> (r: Ratio)
        ensures
            r == (Ratio { numer: self.denom, denom: self.numer }),
    {
        Ratio { numer: self.denom, denom: self.numer }
    }
}

} // verus!
