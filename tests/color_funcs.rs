use scarlet::color_funcs::{check_weight_count, ColorCalcError};

#[test]
fn one_weight_per_color_is_accepted() {
    assert_eq!(check_weight_count(0, 1), Ok(()));
    assert_eq!(check_weight_count(2, 3), Ok(()));
    assert_eq!(check_weight_count(usize::MAX - 1, usize::MAX), Ok(()));
}

#[test]
fn mismatched_weights_are_refused() {
    let cases = [(0, 0), (0, 2), (2, 2), (2, 4), (3, 0), (usize::MAX, 0), (usize::MAX, usize::MAX)];
    for (others, weights) in cases.iter() {
        assert_eq!(
            check_weight_count(*others, *weights),
            Err(ColorCalcError::MismatchedWeights),
            "{} others, {} weights",
            others,
            weights
        );
    }
}

use scarlet::color_funcs::weighted_terms;

#[test]
fn each_color_gets_its_weight_in_order() {
    let terms = weighted_terms('a', &['b', 'c'], &[1u32, 2, 3]);
    assert_eq!(terms, Ok(vec![('a', 1), ('b', 2), ('c', 3)]));
    let alone = weighted_terms(7u8, &[], &[0.5f64]);
    assert_eq!(alone, Ok(vec![(7, 0.5)]));
}

#[test]
fn weighted_terms_refuse_mismatched_weights() {
    assert_eq!(weighted_terms('a', &['b', 'c'], &[1u32, 2]), Err(ColorCalcError::MismatchedWeights));
    assert_eq!(weighted_terms('a', &['b'], &[1u32, 2, 3]), Err(ColorCalcError::MismatchedWeights));
    assert_eq!(weighted_terms('a', &[], &[] as &[u32]), Err(ColorCalcError::MismatchedWeights));
}
