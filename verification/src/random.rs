//! The source of randomness: the thread-local generator of the `rand` crate.

use rand::Rng;
use vstd::prelude::*;

use crate::ratio::Ratio;

verus! {

/// Draws an integer from `0..bound` with `rand::Rng::gen_range` on
/// `rand::thread_rng()`.
///
/// Trusted: `gen_range` returns a value inside the range it is given and
/// panics only on an empty range, which `bound > 0` rules out. Nothing is
/// claimed about which value of the range comes back.
#[verifier::external_body]
pub(crate) fn uniform_below(bound: u64) -> (r: u64)
    requires
        bound > 0,
    ensures
        r < bound,
{
    rand::thread_rng().gen_range(0..bound)
}

/// Decides the outcome of a draw `r` from `0..p.denom` for an event of
/// probability `p`: the event happens when `r` falls among the first
/// `p.numer` values.
pub fn hits(p: Ratio, r: u64) -> (hit: bool)
    ensures
        hit == (r < p.numer),
{
    r < p.numer
}

/// An event of probability `p`, clipped to `[0, 1]`: `true` with probability
/// `p.numer / p.denom`.
///
/// Whatever is drawn, an event of probability zero never happens and one of
/// probability one (or more) always does.
pub fn chance(p: Ratio) -> (hit: bool)
    requires
        p.wf(),
    ensures
        p.numer == 0 ==> !hit,
        p.numer >= p.denom ==> hit,
{
    if p.numer >= p.denom {
        true
    } else {
        let r = uniform_below(p.denom);
        hits(p, r)
    }
}

} // verus!
