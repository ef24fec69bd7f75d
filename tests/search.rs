use fuzzr::highlight::{contains_index, highlight_runs};
use fuzzr::search::format_match;
use fuzzr::{
    rank_matches, Fuzzr, Options, OptionsError, SurroundValue, TextSource, ToStringValue,
};

fn strings(items: &[&str]) -> Vec<String> {
    items.iter().map(|s| s.to_string()).collect()
}

fn brackets() -> Option<(SurroundValue, ToStringValue)> {
    Some((
        SurroundValue::Array(vec![Some("[".to_string()), Some("]".to_string())]),
        ToStringValue::Absent,
    ))
}

#[test]
fn separate_runs_are_wrapped_separately() {
    let r = highlight_runs("abcdefgh", &vec![1, 2, 3, 6], "[", "]");
    assert_eq!(r, "a[bcd]ef[g]h");
}

#[test]
fn run_at_end_of_text_is_closed() {
    let r = highlight_runs("abcdefgh", &vec![1, 2, 3, 7], "[", "]");
    assert_eq!(r, "a[bcd]efg[h]");
}

#[test]
fn whole_text_matched() {
    assert_eq!(highlight_runs("abc", &vec![0, 1, 2], "<b>", "</b>"), "<b>abc</b>");
}

#[test]
fn no_positions_leave_text_unchanged() {
    assert_eq!(highlight_runs("abc", &vec![], "[", "]"), "abc");
    assert_eq!(highlight_runs("", &vec![0], "[", "]"), "");
}

#[test]
fn positions_count_characters_not_bytes() {
    assert_eq!(highlight_runs("héllo", &vec![2], "[", "]"), "hé[l]lo");
}

#[test]
fn unordered_positions_and_positions_past_the_end() {
    assert_eq!(highlight_runs("abcd", &vec![3, 0, 9], "(", ")"), "(a)bc(d)");
}

#[test]
fn stripping_markers_recovers_text() {
    let text = "fuzzy finder";
    let r = highlight_runs(text, &vec![0, 1, 6, 7, 8, 11], "<em>", "</em>");
    assert_eq!(r, "<em>fu</em>zzy <em>fin</em>de<em>r</em>");
    assert_eq!(r.replace("<em>", "").replace("</em>", ""), text);
}

#[test]
fn contains_index_finds_members() {
    assert!(contains_index(&vec![4, 8, 15], 8));
    assert!(!contains_index(&vec![4, 8, 15], 9));
    assert!(!contains_index(&vec![], 0));
}

#[test]
fn format_match_without_markers_is_identity() {
    assert_eq!(format_match("grape", &vec![1, 2], &None), "grape");
    let markers = Some(("*".to_string(), "*".to_string()));
    assert_eq!(format_match("grape", &vec![1, 2], &markers), "g*ra*pe");
}

#[test]
fn single_marker_is_refused() {
    let r = Options::try_from(
        SurroundValue::Array(vec![Some("only-one".to_string())]),
        ToStringValue::Absent,
    );
    assert!(matches!(r, Err(OptionsError::SurroundMatchesWith)));
    let f = Fuzzr::new(Some((
        SurroundValue::Array(vec![Some("only-one".to_string())]),
        ToStringValue::Absent,
    )));
    assert!(matches!(f, Err(OptionsError::SurroundMatchesWith)));
}

#[test]
fn malformed_markers_are_refused() {
    let three = SurroundValue::Array(vec![
        Some("a".to_string()),
        Some("b".to_string()),
        Some("c".to_string()),
    ]);
    assert!(matches!(Options::try_from(three, ToStringValue::Absent), Err(OptionsError::SurroundMatchesWith)));
    let not_string = SurroundValue::Array(vec![Some("a".to_string()), None]);
    assert!(matches!(Options::try_from(not_string, ToStringValue::Absent), Err(OptionsError::SurroundMatchesWith)));
    assert!(matches!(
        Options::try_from(SurroundValue::NotArray, ToStringValue::Absent),
        Err(OptionsError::SurroundMatchesWith)
    ));
    assert!(matches!(
        Options::try_from(SurroundValue::Array(vec![]), ToStringValue::Callable),
        Err(OptionsError::SurroundMatchesWith)
    ));
}

#[test]
fn uncallable_stringifier_is_refused() {
    assert!(matches!(
        Options::try_from(SurroundValue::Absent, ToStringValue::NotCallable),
        Err(OptionsError::ToString)
    ));
    assert!(matches!(
        Options::try_from(SurroundValue::NotArray, ToStringValue::NotCallable),
        Err(OptionsError::SurroundMatchesWith)
    ));
}

#[test]
fn valid_options_are_kept() {
    let o = Options::try_from(
        SurroundValue::Array(vec![Some("<".to_string()), Some(">".to_string())]),
        ToStringValue::Callable,
    )
    .ok()
    .unwrap();
    assert_eq!(o.surround_matches_with, Some(("<".to_string(), ">".to_string())));
    assert_eq!(o.text_source, TextSource::Stringify);
    let d = Options::default();
    assert_eq!(d.surround_matches_with, None);
    assert_eq!(d.text_source, TextSource::NativeText);
}

#[test]
fn error_messages() {
    assert_eq!(
        OptionsError::SurroundMatchesWith.message(),
        "surroundMatchesWith must be an array of exactly two strings"
    );
    assert_eq!(OptionsError::ToString.message(), "toString must a function");
}

#[test]
fn default_searcher_has_no_markers() {
    let f = Fuzzr::new(None).ok().unwrap();
    assert!(f.options().surround_matches_with.is_none());
    assert_eq!(f.options().text_source, TextSource::NativeText);
    assert!(f.format("apple", &vec![0]).is_none());
}

#[test]
fn searcher_formats_with_its_markers() {
    let f = Fuzzr::new(brackets()).ok().unwrap();
    assert_eq!(f.format("apple", &vec![0, 1]), Some("[ap]ple".to_string()));
}

#[test]
fn fruit_scenario() {
    let f = Fuzzr::new(brackets()).ok().unwrap();
    let texts = strings(&["apple", "banana", "grape"]);
    let r = f.search(&texts, "ap");
    assert_eq!(r.len(), 2);
    assert!(r.iter().all(|x| x.index != 1));
    let apple = r.iter().find(|x| x.index == 0).unwrap();
    let grape = r.iter().find(|x| x.index == 2).unwrap();
    assert_eq!(apple.formatted, "[ap]ple");
    assert_eq!(grape.formatted, "gr[ap]e");
    if apple.score >= grape.score {
        assert_eq!(r[0].index, 0);
    } else {
        assert_eq!(r[0].index, 2);
    }
}

#[test]
fn results_are_in_rank_order() {
    let f = Fuzzr::new(None).ok().unwrap();
    let texts = strings(&["xaxbxc", "abc", "a_b_c", "cba", "abc", "zzz abc"]);
    let r = f.search(&texts, "abc");
    assert!(r.len() >= 3);
    for w in r.windows(2) {
        assert!(w[0].score > w[1].score || (w[0].score == w[1].score && w[0].index < w[1].index));
    }
    let first_abc = r.iter().position(|x| x.index == 1).unwrap();
    let second_abc = r.iter().position(|x| x.index == 4).unwrap();
    assert!(first_abc < second_abc);
    assert!(r.iter().all(|x| x.index != 3));
}

#[test]
fn plain_search_displays_text_unchanged() {
    let f = Fuzzr::new(None).ok().unwrap();
    let texts = strings(&["apple", "grape", "pineapple"]);
    for x in f.search(&texts, "ap") {
        assert_eq!(x.formatted, texts[x.index]);
    }
}

#[test]
fn no_candidates_no_results() {
    let f = Fuzzr::new(brackets()).ok().unwrap();
    assert!(f.search(&vec![], "ap").is_empty());
    assert!(f.search(&vec![], "").is_empty());
}

#[test]
fn empty_query_matches_everything_in_input_order() {
    let f = Fuzzr::new(brackets()).ok().unwrap();
    let texts = strings(&["pear", "fig", ""]);
    let r = f.search(&texts, "");
    assert_eq!(r.len(), 3);
    for (k, x) in r.iter().enumerate() {
        assert_eq!(x.index, k);
        assert_eq!(x.score, 0);
        assert_eq!(x.formatted, texts[k]);
    }
}

#[test]
fn search_agrees_with_matches() {
    let f = Fuzzr::new(None).ok().unwrap();
    let texts = strings(&["apple", "banana", "grape", "map", "pa"]);
    let r = f.search(&texts, "ap");
    for (i, t) in texts.iter().enumerate() {
        assert_eq!(r.iter().any(|x| x.index == i), fuzzr::search::matches(t, "ap"));
    }
    assert!(fuzzr::search::matches("apple", "ap"));
    assert!(!fuzzr::search::matches("banana", "ap"));
}

#[test]
fn ranking_given_outcomes() {
    let texts = strings(&["aa", "bb", "cc", "dd", "ee"]);
    let found = vec![
        Some((5, vec![0])),
        None,
        Some((9, vec![1])),
        Some((5, vec![0, 1])),
        Some((-3, vec![])),
    ];
    let markers = Some(("[".to_string(), "]".to_string()));
    let r = rank_matches(&texts, &found, &markers);
    let got: Vec<(usize, i64, String)> = r.into_iter().map(|x| (x.index, x.score, x.formatted)).collect();
    assert_eq!(
        got,
        vec![
            (2, 9, "c[c]".to_string()),
            (0, 5, "[a]a".to_string()),
            (3, 5, "[dd]".to_string()),
            (4, -3, "ee".to_string()),
        ]
    );
}

#[test]
fn equal_texts_are_all_kept() {
    let texts = strings(&["same", "same"]);
    let found = vec![Some((1, vec![0])), Some((1, vec![0]))];
    let r = rank_matches(&texts, &found, &None);
    assert_eq!(r.len(), 2);
    assert_eq!(r[0].index, 0);
    assert_eq!(r[1].index, 1);
}
