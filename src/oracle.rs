use vstd::prelude::*;
use fuzzy_matcher::FuzzyMatcher;
use fuzzy_matcher::skim::SkimMatcherV2;

verus! {

/// The outcome of the skim fuzzy matcher in its default configuration on a
/// candidate text and a query: a score (higher is better) and the matched
/// character positions of the candidate, or `None` where it does not match.
pub uninterp spec fn skim_fuzzy_indices(choice: Seq<char>, pattern: Seq<char>) -> Option<(i64, Seq<usize>)>;

/// A match outcome with its positions seen as a sequence.
pub open spec fn match_view(m: Option<(i64, Vec<usize>)>) -> Option<(i64, Seq<usize>)> {
    match m {
        Some((score, indices)) => Some((score, indices@)),
        None => None,
    }
}

/// Relies on fuzzy_matcher's `SkimMatcherV2::default()` and its
/// `FuzzyMatcher::fuzzy_indices`: the result depends on the two strings alone,
/// and an empty pattern matches with score 0 and no positions.
#[verifier::external_body]
pub(crate) fn skim_match(choice: &str, pattern: &str) -> (r: Option<(i64, Vec<usize>)>)
    ensures
        match_view(r) == skim_fuzzy_indices(choice@, pattern@),
        pattern@.len() == 0 ==> match_view(r) == Some((0i64, Seq::<usize>::empty())),
{
    SkimMatcherV2::default().fuzzy_indices(choice, pattern)
}

} // verus!
