use rusticsearch::query::Query;
use rusticsearch::term::{Term, TermMatcher};
use rusticsearch::value::{Document, Value};

fn s(text: &str) -> String {
    text.to_string()
}

fn doc_with_string(field: &str, value: &str) -> Document {
    let mut doc = Document::new(s("doc1"));
    doc.set_field(s(field), Value::String(s(value)));
    doc
}

fn doc_with_tokens(field: &str, tokens: Vec<&str>) -> Document {
    let mut doc = Document::new(s("doc1"));
    doc.set_field(
        s(field),
        Value::TSVector(tokens.into_iter().map(s).collect()),
    );
    doc
}

fn term_query(field: &str, value: &str, matcher: TermMatcher, boost: u64) -> Query {
    Query::MatchTerm { field: s(field), term: Term::String(s(value)), matcher, boost }
}

#[test]
fn test_match_all_scores_boost_match_none_scores_nothing() {
    let doc = doc_with_string("title", "hello");
    assert_eq!(Query::MatchAll { boost: 2500 }.rank(&doc), Some(2500));
    assert!(Query::MatchAll { boost: 1000 }.matches(&doc));
    assert_eq!(Query::MatchNone.rank(&doc), None);
    assert!(!Query::MatchNone.matches(&doc));
}

#[test]
fn test_exact_matcher_requires_equality() {
    let doc = doc_with_string("title", "hello");
    assert_eq!(term_query("title", "hello", TermMatcher::Exact, 1000).rank(&doc), Some(1000));
    assert_eq!(term_query("title", "hell", TermMatcher::Exact, 1000).rank(&doc), None);
    assert_eq!(term_query("title", "hello!", TermMatcher::Exact, 1000).rank(&doc), None);
}

#[test]
fn test_prefix_matcher_requires_prefix() {
    let doc = doc_with_string("title", "hello");
    assert_eq!(term_query("title", "hell", TermMatcher::Prefix, 1000).rank(&doc), Some(1000));
    assert_eq!(term_query("title", "hello", TermMatcher::Prefix, 1000).rank(&doc), Some(1000));
    assert_eq!(term_query("title", "hellos", TermMatcher::Prefix, 1000).rank(&doc), None);
    assert_eq!(term_query("title", "ello", TermMatcher::Prefix, 1000).rank(&doc), None);
}

#[test]
fn test_missing_field_and_type_mismatch_are_silent_non_matches() {
    let doc = doc_with_string("title", "hello");
    assert_eq!(term_query("body", "hello", TermMatcher::Exact, 1000).rank(&doc), None);
    let mut doc2 = Document::new(s("doc2"));
    doc2.set_field(s("count"), Value::I64(7));
    assert_eq!(term_query("count", "7", TermMatcher::Exact, 1000).rank(&doc2), None);
}

#[test]
fn test_ts_vector_scores_matched_token_count_times_boost() {
    let doc = doc_with_tokens("body", vec!["bar", "baz", "foo", "barn"]);
    // two tokens start with "bar"; boost 1.5
    assert_eq!(term_query("body", "bar", TermMatcher::Prefix, 1500).rank(&doc), Some(3000));
    // exactly one exact match
    assert_eq!(term_query("body", "foo", TermMatcher::Exact, 1000).rank(&doc), Some(1000));
    // zero matches is no match, not a zero score
    assert_eq!(term_query("body", "quux", TermMatcher::Exact, 1000).rank(&doc), None);
}

fn bool_query(
    must: Vec<Query>,
    must_not: Vec<Query>,
    should: Vec<Query>,
    filter: Vec<Query>,
    minimum_should_match: u64,
    boost: u64,
) -> Query {
    Query::Bool { must, must_not, should, filter, minimum_should_match, boost }
}

#[test]
fn test_bool_matching_must_not_rejects() {
    let doc = doc_with_string("title", "hello");
    let q = bool_query(
        vec![Query::MatchAll { boost: 1000 }],
        vec![term_query("title", "hello", TermMatcher::Exact, 1000)],
        vec![],
        vec![],
        0,
        1000,
    );
    assert_eq!(q.rank(&doc), None);
}

#[test]
fn test_bool_non_matching_filter_rejects() {
    let doc = doc_with_string("title", "hello");
    let q = bool_query(
        vec![Query::MatchAll { boost: 1000 }],
        vec![],
        vec![],
        vec![Query::MatchNone],
        0,
        1000,
    );
    assert_eq!(q.rank(&doc), None);
}

#[test]
fn test_bool_non_matching_must_rejects() {
    let doc = doc_with_string("title", "hello");
    let q = bool_query(
        vec![term_query("title", "absent", TermMatcher::Exact, 1000)],
        vec![],
        vec![Query::MatchAll { boost: 1000 }],
        vec![],
        0,
        1000,
    );
    assert_eq!(q.rank(&doc), None);
}

#[test]
fn test_bool_minimum_should_match_rejects() {
    let doc = doc_with_string("title", "hello");
    let q = bool_query(
        vec![term_query("title", "hello", TermMatcher::Exact, 1000)],
        vec![],
        vec![term_query("title", "absent", TermMatcher::Exact, 1000)],
        vec![],
        1,
        1000,
    );
    assert_eq!(q.rank(&doc), None);
}

#[test]
fn test_bool_empty_must_and_should_is_vacuous_match_with_boost() {
    let doc = doc_with_string("title", "hello");
    let q = bool_query(vec![], vec![], vec![], vec![], 0, 2000);
    assert_eq!(q.rank(&doc), Some(2000));
}

#[test]
fn test_bool_averages_matched_scores_times_boost() {
    let doc = doc_with_string("title", "hello");
    // must scores 1000, should scores 3000: (1000 + 3000) * 2.0 / 2 = 4000
    let q = bool_query(
        vec![term_query("title", "hello", TermMatcher::Exact, 1000)],
        vec![],
        vec![Query::MatchAll { boost: 3000 }],
        vec![],
        0,
        2000,
    );
    assert_eq!(q.rank(&doc), Some(4000));
}

#[test]
fn test_disjunction_max_takes_boosted_maximum() {
    let doc = doc_with_string("title", "hello");
    let q = Query::DisjunctionMax {
        queries: vec![
            term_query("title", "hello", TermMatcher::Exact, 1000),
            Query::MatchAll { boost: 3000 },
            Query::MatchNone,
        ],
        boost: 2000,
    };
    assert_eq!(q.rank(&doc), Some(6000));

    let none = Query::DisjunctionMax {
        queries: vec![Query::MatchNone, term_query("title", "absent", TermMatcher::Exact, 1000)],
        boost: 2000,
    };
    assert_eq!(none.rank(&doc), None);
}

#[test]
fn test_boost_score_multiplies_and_propagates_none() {
    let doc = doc_with_string("title", "hello");
    let q = Query::BoostScore {
        query: Box::new(term_query("title", "hello", TermMatcher::Exact, 1000)),
        boost: 2500,
    };
    assert_eq!(q.rank(&doc), Some(2500));
    let none = Query::BoostScore { query: Box::new(Query::MatchNone), boost: 2500 };
    assert_eq!(none.rank(&doc), None);
}

#[test]
fn test_conjunction_needs_every_clause() {
    // a document containing both values matches, one containing only one does not
    let both = doc_with_tokens("test", vec!["foo", "bar"]);
    let only_foo = doc_with_tokens("test", vec!["foo"]);
    let q = Query::new_conjunction(vec![
        term_query("test", "foo", TermMatcher::Exact, 1000),
        term_query("test", "bar", TermMatcher::Exact, 1000),
    ]);
    assert!(q.matches(&both));
    assert_eq!(q.rank(&both), Some(1000));
    assert!(!q.matches(&only_foo));
    assert_eq!(q.rank(&only_foo), None);
}

#[test]
fn test_empty_conjunction_is_vacuous_match() {
    let doc = doc_with_string("title", "hello");
    assert_eq!(Query::new_conjunction(vec![]).rank(&doc), Some(1000));
}
