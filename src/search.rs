use vstd::prelude::*;
use crate::highlight::{highlight_runs, highlighted};
use crate::options::{markers_view, validated, Options, OptionsError, SurroundValue, TextSource, ToStringValue};
use crate::oracle::{match_view, skim_fuzzy_indices, skim_match};

verus! {

/// One candidate that matched the query.
pub struct SearchResultItem {
    /// Position of the candidate in the input sequence.
    pub index: usize,
    /// Relevance given by the matcher; higher is better.
    pub score: i64,
    /// The candidate's text, with its matched runs wrapped in the surround markers if any.
    pub formatted: String,
}

/// The order of results: higher score first, and among equal scores the
/// earlier input position first.
pub open spec fn ranks_before(a_score: i64, a_index: usize, b_score: i64, b_index: usize) -> bool {
    a_score > b_score || (a_score == b_score && a_index < b_index)
}

/// The display text of a match: the text itself without markers, else its
/// matched runs wrapped in them.
pub open spec fn formatted_text(
    text: Seq<char>,
    indices: Seq<usize>,
    surround: Option<(Seq<char>, Seq<char>)>,
) -> Seq<char> {
    match surround {
        Some((pre, post)) => highlighted(text, indices, pre, post),
        None => text,
    }
}

/// The texts of a list of strings.
pub open spec fn texts_view(texts: Seq<String>) -> Seq<Seq<char>> {
    texts.map_values(|s: String| s@)
}

/// The match outcomes of a list, with positions seen as sequences.
pub open spec fn found_view(found: Seq<Option<(i64, Vec<usize>)>>) -> Seq<Option<(i64, Seq<usize>)>> {
    found.map_values(|m: Option<(i64, Vec<usize>)>| match_view(m))
}

/// Result `r` records candidate `i` as matched in `found`.
pub open spec fn records(
    r: SearchResultItem,
    texts: Seq<Seq<char>>,
    found: Seq<Option<(i64, Seq<usize>)>>,
    surround: Option<(Seq<char>, Seq<char>)>,
) -> bool {
    &&& r.index < texts.len()
    &&& r.index < found.len()
    &&& found[r.index as int] is Some
    &&& r.score == (found[r.index as int]->0).0
    &&& r.formatted@ == formatted_text(texts[r.index as int], (found[r.index as int]->0).1, surround)
}

/// `r` holds exactly the candidates that matched, each once, in rank order.
pub open spec fn is_ranking(
    r: Seq<SearchResultItem>,
    texts: Seq<Seq<char>>,
    found: Seq<Option<(i64, Seq<usize>)>>,
    surround: Option<(Seq<char>, Seq<char>)>,
) -> bool {
    &&& forall|k: int| 0 <= k < r.len() ==> records(#[trigger] r[k], texts, found, surround)
    &&& forall|i: int|
        0 <= i < found.len() && (#[trigger] found[i]) is Some ==> exists|k: int|
            0 <= k < r.len() && r[k].index == i
    &&& forall|k: int, l: int|
        0 <= k < l < r.len() ==> ranks_before(r[k].score, r[k].index, r[l].score, r[l].index)
}

/// The display text of a match of `text` at `indices`.
pub fn format_match(text: &str, indices: &Vec<usize>, surround: &Option<(String, String)>) -> (r: String)
    ensures
        r@ == formatted_text(text@, indices@, markers_view(*surround)),
{
    match surround {
        Some((pre, post)) => highlight_runs(text, indices, pre.as_str(), post.as_str()),
        None => String::from_str(text),
    }
}

/// Builds the ranked results from the matcher's outcome for each candidate:
/// `found[i]` is the outcome for `texts[i]`.
pub fn rank_matches(
    texts: &Vec<String>,
    found: &Vec<Option<(i64, Vec<usize>)>>,
    surround: &Option<(String, String)>,
) -> (r: Vec<SearchResultItem>)
    requires
        texts.len() == found.len(),
    ensures
        is_ranking(r@, texts_view(texts@), found_view(found@), markers_view(*surround)),
{
    let ghost tv = texts_view(texts@);
    let ghost fv = found_view(found@);
    let ghost sv = markers_view(*surround);
    let mut result: Vec<SearchResultItem> = Vec::new();
    let mut i: usize = 0;
    while i < found.len()
        invariant
            i <= found.len(),
            texts.len() == found.len(),
            tv == texts_view(texts@),
            fv == found_view(found@),
            sv == markers_view(*surround),
            forall|k: int| 0 <= k < result.len() ==> records(#[trigger] result@[k], tv, fv, sv),
            forall|k: int| 0 <= k < result.len() ==> (#[trigger] result@[k]).index < i,
            forall|j: int|
                0 <= j < i && (#[trigger] fv[j]) is Some ==> exists|k: int|
                    0 <= k < result.len() && result@[k].index == j,
            forall|k: int, l: int|
                0 <= k < l < result.len() ==> ranks_before(
                    result@[k].score,
                    result@[k].index,
                    result@[l].score,
                    result@[l].index,
                ),
        decreases found.len() - i,
    {
        match &found[i] {
            Some((score, indices)) => {
                let formatted = format_match(texts[i].as_str(), indices, surround);
                let score = *score;
                let mut pos: usize = 0;
                while pos < result.len() && result[pos].score >= score
                    invariant
                        pos <= result.len(),
                        forall|k: int| 0 <= k < pos ==> (#[trigger] result@[k]).score >= score,
                    decreases result.len() - pos,
                {
                    pos = pos + 1;
                }
                let item = SearchResultItem { index: i, score, formatted };
                assert(records(item, tv, fv, sv));
                assert(forall|k: int| pos <= k < result.len() ==> (#[trigger] result@[k]).score < score) by {
                    if pos < result.len() {
                        assert forall|k: int| pos <= k < result.len() implies (#[trigger] result@[k]).score < score by {
                            if k > pos {
                                assert(ranks_before(
                                    result@[pos as int].score,
                                    result@[pos as int].index,
                                    result@[k].score,
                                    result@[k].index,
                                ));
                            }
                        }
                    }
                }
                let ghost old_result = result@;
                result.insert(pos, item);
                assert(forall|k: int| 0 <= k < pos ==> result@[k] == old_result[k]);
                assert(forall|k: int| pos < k < result.len() ==> result@[k] == old_result[k - 1]);
                assert forall|j: int| 0 <= j <= i && (#[trigger] fv[j]) is Some implies exists|k: int|
                    0 <= k < result.len() && result@[k].index == j by {
                    if j == i {
                        assert(result@[pos as int].index == j);
                    } else {
                        let k0 = choose|k: int| 0 <= k < old_result.len() && old_result[k].index == j;
                        if k0 < pos {
                            assert(result@[k0].index == j);
                        } else {
                            assert(result@[k0 + 1].index == j);
                        }
                    }
                }
            },
            None => {
                assert(fv[i as int] is None);
            },
        }
        i = i + 1;
    }
    result
}

/// The matcher's outcome for each text against `query`.
pub open spec fn skim_outcomes(texts: Seq<Seq<char>>, query: Seq<char>) -> Seq<Option<(i64, Seq<usize>)>> {
    texts.map_values(|t: Seq<char>| skim_fuzzy_indices(t, query))
}

/// Whether `text` fuzzy-matches `query`.
pub fn matches(text: &str, query: &str) -> (r: bool)
    ensures
        r == skim_fuzzy_indices(text@, query@) is Some,
{
    skim_match(text, query).is_some()
}

/// In a ranking, a result that comes before another has a higher score, or the
/// same score and an earlier position; so no two results share both.
pub proof fn lemma_ranking_order(
    r: Seq<SearchResultItem>,
    texts: Seq<Seq<char>>,
    found: Seq<Option<(i64, Seq<usize>)>>,
    surround: Option<(Seq<char>, Seq<char>)>,
)
    requires
        is_ranking(r, texts, found, surround),
    ensures
        forall|k: int, l: int|
            0 <= k < l < r.len() ==> r[k].score > r[l].score || (r[k].score == r[l].score && r[k].index
                < r[l].index),
        forall|k: int, l: int|
            0 <= k < r.len() && 0 <= l < r.len() && k != l ==> !(r[k].score == r[l].score && r[k].index
                == r[l].index),
{
    assert forall|k: int, l: int| 0 <= k < l < r.len() implies r[k].score > r[l].score || (r[k].score
        == r[l].score && r[k].index < r[l].index) by {
        assert(ranks_before(r[k].score, r[k].index, r[l].score, r[l].index));
    }
    assert forall|k: int, l: int| 0 <= k < r.len() && 0 <= l < r.len() && k != l implies !(r[k].score
        == r[l].score && r[k].index == r[l].index) by {
        if k < l {
            assert(ranks_before(r[k].score, r[k].index, r[l].score, r[l].index));
        } else {
            assert(ranks_before(r[l].score, r[l].index, r[k].score, r[k].index));
        }
    }
}

/// A candidate is among the results of a search exactly when the matcher
/// matches its text against the query, which is what `matches` reports.
pub proof fn lemma_search_filters(
    r: Seq<SearchResultItem>,
    texts: Seq<Seq<char>>,
    query: Seq<char>,
    surround: Option<(Seq<char>, Seq<char>)>,
)
    requires
        is_ranking(r, texts, skim_outcomes(texts, query), surround),
    ensures
        forall|i: int|
            0 <= i < texts.len() ==> ((exists|k: int| 0 <= k < r.len() && r[k].index == i)
                <==> skim_fuzzy_indices(#[trigger] texts[i], query) is Some),
{
    let found = skim_outcomes(texts, query);
    assert forall|i: int| 0 <= i < texts.len() implies ((exists|k: int| 0 <= k < r.len() && r[k].index == i)
        <==> skim_fuzzy_indices(#[trigger] texts[i], query) is Some) by {
        assert(found[i] == skim_fuzzy_indices(texts[i], query));
        if exists|k: int| 0 <= k < r.len() && r[k].index == i {
            let k = choose|k: int| 0 <= k < r.len() && r[k].index == i;
            assert(records(r[k], texts, found, surround));
        }
    }
}

/// Without markers every result displays its candidate's text unchanged.
pub proof fn lemma_plain_display(
    r: Seq<SearchResultItem>,
    texts: Seq<Seq<char>>,
    found: Seq<Option<(i64, Seq<usize>)>>,
)
    requires
        is_ranking(r, texts, found, None),
    ensures
        forall|k: int| 0 <= k < r.len() ==> (#[trigger] r[k]).formatted@ == texts[r[k].index as int],
{
    assert forall|k: int| 0 <= k < r.len() implies (#[trigger] r[k]).formatted@ == texts[r[k].index as int] by {
        assert(records(r[k], texts, found, None));
    }
}

/// No candidates give no results, whatever the query.
pub proof fn lemma_no_candidates(
    r: Seq<SearchResultItem>,
    query: Seq<char>,
    surround: Option<(Seq<char>, Seq<char>)>,
)
    requires
        is_ranking(r, Seq::empty(), skim_outcomes(Seq::empty(), query), surround),
    ensures
        r.len() == 0,
{
    if r.len() > 0 {
        assert(records(r[0], Seq::empty(), skim_outcomes(Seq::empty(), query), surround));
    }
}

/// A fuzzy searcher over candidate texts, with its configuration.
pub struct Fuzzr {
    options: Options,
}

impl Fuzzr {
    /// The configuration of this searcher.
    pub closed spec fn config(&self) -> Options {
        self.options
    }

    /// A searcher with the given configuration, or the default one where none is given.
    pub fn new(options: Option<(SurroundValue, ToStringValue)>) -> (r: Result<Fuzzr, OptionsError>)
        ensures
            options is None ==> r is Ok && r->Ok_0.config().surround_matches_with is None
                && r->Ok_0.config().text_source == TextSource::NativeText,
            options matches Some((surround, to_string)) ==> validated(
                match r {
                    Ok(f) => Ok(f.config()),
                    Err(e) => Err(e),
                },
                surround,
                to_string,
            ),
    {
        let options = match options {
            None => Options::default(),
            Some((surround, to_string)) => match Options::try_from(surround, to_string) {
                Ok(o) => o,
                Err(e) => {
                    return Err(e);
                },
            },
        };
        Ok(Fuzzr { options })
    }

    /// The configuration of this searcher.
    pub fn options(&self) -> (r: &Options)
        ensures
            *r == self.config(),
    {
        &self.options
    }

    /// The display text of a match of `text` at `indices`, where markers are configured.
    pub fn format(&self, text: &str, indices: &Vec<usize>) -> (r: Option<String>)
        ensures
            r is None <==> self.config().surround_matches_with is None,
            r matches Some(s) ==> s@ == formatted_text(text@, indices@, markers_view(self.config().surround_matches_with)),
    {
        match &self.options.surround_matches_with {
            Some(_) => Some(format_match(text, indices, &self.options.surround_matches_with)),
            None => None,
        }
    }

    /// Ranks the texts that match `query`: `texts[i]` is the text of candidate `i`.
    pub fn search(&self, texts: &Vec<String>, query: &str) -> (r: Vec<SearchResultItem>)
        ensures
            is_ranking(
                r@,
                texts_view(texts@),
                skim_outcomes(texts_view(texts@), query@),
                markers_view(self.config().surround_matches_with),
            ),
    {
        let mut found: Vec<Option<(i64, Vec<usize>)>> = Vec::new();
        for i in 0..texts.len()
            invariant
                found.len() == i,
                forall|j: int| 0 <= j < i ==> match_view(#[trigger] found@[j]) == skim_fuzzy_indices(texts@[j]@, query@),
        {
            found.push(skim_match(texts[i].as_str(), query));
        }
        assert(found_view(found@) =~= skim_outcomes(texts_view(texts@), query@));
        rank_matches(texts, &found, &self.options.surround_matches_with)
    }
}

} // verus!
