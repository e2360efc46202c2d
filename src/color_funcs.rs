//! Rules shared by the geometric color operations that do not depend on the
//! numeric values of the colors themselves.
use vstd::prelude::*;

verus! {

/// Errors that can come up when treating colors as points in space.
#[derive(Debug, Copy, Clone, PartialEq, Eq, Hash, Structural)]
pub enum ColorCalcError {
    /// The number of weights differs from the number of colors being averaged.
    MismatchedWeights,
}

/// A weighted average of `self` and `n_others` further colors needs exactly one weight per
/// color, that is `n_others + 1` weights.
pub open spec fn weights_match(n_others: nat, n_weights: nat) -> bool {
    n_weights == n_others + 1
}

/// Checks the weight count of a weighted average over `self` and `n_others` other colors.
/// Succeeds exactly when there is one weight per color; otherwise the average cannot be formed
/// and `MismatchedWeights` is returned.
pub fn check_weight_count(n_others: usize, n_weights: usize) -> (r: Result<(), ColorCalcError>)
    ensures
        r is Ok <==> weights_match(n_others as nat, n_weights as nat),
        r is Err ==> r == Err::<(), ColorCalcError>(ColorCalcError::MismatchedWeights),
{
    if n_weights == 0 || n_weights - 1 != n_others {
        Err(ColorCalcError::MismatchedWeights)
    } else {
        Ok(())
    }
}

/// The colors of a weighted average in order: `first`, then `others`.
pub open spec fn colors_in_order<C>(first: C, others: Seq<C>) -> Seq<C> {
    seq![first] + others
}

/// Each color of a weighted average with its weight, in order.
pub open spec fn weighted_terms_of<C, W>(first: C, others: Seq<C>, weights: Seq<W>) -> Seq<(C, W)> {
    Seq::new(weights.len(), |i: int| (colors_in_order(first, others)[i], weights[i]))
}

/// Pairs each color of a weighted average with its weight: `first` with the first weight and the
/// `i`-th of `others` with weight `i + 1`. Refused with `MismatchedWeights` unless there is
/// exactly one weight per color.
pub fn weighted_terms<C: Copy, W: Copy>(first: C, others: &[C], weights: &[W]) -> (r: Result<
    Vec<(C, W)>,
    ColorCalcError,
>)
    ensures
        r is Ok <==> weights_match(others@.len(), weights@.len()),
        r is Err ==> r == Err::<Vec<(C, W)>, ColorCalcError>(ColorCalcError::MismatchedWeights),
        r is Ok ==> r->Ok_0@ == weighted_terms_of(first, others@, weights@),
{
    match check_weight_count(others.len(), weights.len()) {
        Err(e) => Err(e),
        Ok(()) => {
            let mut terms: Vec<(C, W)> = Vec::new();
            terms.push((first, weights[0]));
            let mut i: usize = 0;
            while i < others.len()
                invariant
                    i <= others@.len(),
                    weights@.len() == others@.len() + 1,
                    terms@ == weighted_terms_of(first, others@, weights@).take(i + 1),
                decreases others@.len() - i,
            {
                terms.push((others[i], weights[i + 1]));
                i = i + 1;
                assert(terms@ =~= weighted_terms_of(first, others@, weights@).take(i + 1));
            }
            assert(terms@ =~= weighted_terms_of(first, others@, weights@));
            Ok(terms)
        },
    }
}

} // verus!
