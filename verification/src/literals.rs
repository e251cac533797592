//! The literals of an example: each feature followed by its negation.

use rayon::iter::{IntoParallelRefIterator, ParallelIterator};
use vstd::prelude::*;

verus! {

/// The literals of `input`: at `2 * k` the feature `k`, at `2 * k + 1` its
/// negation.
pub open spec fn expand(input: Seq<bool>) -> Seq<bool> {
    Seq::new(2 * input.len(), |i: int| if i % 2 == 0 { input[i / 2] } else { !input[i / 2] })
}

/// The two literals of one feature.
pub fn literal_pair(feature: bool) -> (pair: Vec<bool>)
    ensures
        pair@ == seq![feature, !feature],
{
    let mut pair: Vec<bool> = Vec::new();
    pair.push(feature);
    pair.push(!feature);
    pair
}

/// Expands an example into its literals, with `rayon`: `par_iter` over the
/// features, `flat_map` with `literal_pair`, and `collect` into a vector.
///
/// Trusted: collecting the flat map of a slice's parallel iterator yields the
/// pieces one after the other, in the order of the slice; with two literals a
/// feature that is the sequence `expand` describes.
#[verifier::external_body]
pub(crate) fn par_expand(input: &Vec<bool>) -> (literals: Vec<bool>)
    requires
        input.len() <= usize::MAX / 2,
    ensures
        literals@ == expand(input@),
{
    input.par_iter().flat_map(|feature| literal_pair(*feature)).collect()
}

} // verus!
