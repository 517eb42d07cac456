use rusticsearch::json::{JsonValue, Number};
use rusticsearch::parser::{and_query, prefix_query, QueryParseContext, QueryParseError};
use rusticsearch::query::Query;
use rusticsearch::term::{Term, TermMatcher};

fn s(text: &str) -> String {
    text.to_string()
}

fn jstr(text: &str) -> JsonValue {
    JsonValue::String(s(text))
}

fn jint(n: u64) -> JsonValue {
    JsonValue::Number(Number { mantissa: n, scale: 0 })
}

fn obj(entries: Vec<(&str, JsonValue)>) -> JsonValue {
    JsonValue::Object(entries.into_iter().map(|(k, v)| (s(k), v)).collect())
}

fn bar_prefix_query() -> Query {
    Query::MatchTerm {
        field: s("foo"),
        term: Term::String(s("bar")),
        matcher: TermMatcher::Prefix,
        boost: 1000,
    }
}

#[test]
fn test_prefix_query() {
    let query = prefix_query::parse(
        &QueryParseContext::new(),
        &obj(vec![("foo", obj(vec![("value", jstr("bar"))]))]),
    );
    assert_eq!(query, Ok(bar_prefix_query()));
}

#[test]
fn test_simple_prefix_query() {
    let query = prefix_query::parse(&QueryParseContext::new(), &obj(vec![("foo", jstr("bar"))]));
    assert_eq!(query, Ok(bar_prefix_query()));
}

#[test]
fn test_with_prefix_key() {
    let query = prefix_query::parse(
        &QueryParseContext::new(),
        &obj(vec![("foo", obj(vec![("prefix", jstr("bar"))]))]),
    );
    assert_eq!(query, Ok(bar_prefix_query()));
}

#[test]
fn test_with_boost() {
    // object entries ordered by key, as an ordered-map producer hands them over
    let query = prefix_query::parse(
        &QueryParseContext::new(),
        &obj(vec![(
            "foo",
            obj(vec![
                ("boost", JsonValue::Number(Number { mantissa: 20, scale: 1 })),
                ("value", jstr("bar")),
            ]),
        )]),
    );
    assert_eq!(
        query,
        Ok(Query::BoostScore { query: Box::new(bar_prefix_query()), boost: 2000 })
    );
}

#[test]
fn test_with_boost_integer() {
    let query = prefix_query::parse(
        &QueryParseContext::new(),
        &obj(vec![("foo", obj(vec![("boost", jint(2)), ("value", jstr("bar"))]))]),
    );
    assert_eq!(
        query,
        Ok(Query::BoostScore { query: Box::new(bar_prefix_query()), boost: 2000 })
    );
}

#[test]
fn prefix_query_test_gives_error_for_incorrect_type() {
    // Array
    let query = prefix_query::parse(
        &QueryParseContext::new(),
        &JsonValue::Array(vec![jstr("foo")]),
    );
    assert_eq!(query, Err(QueryParseError::ExpectedObject));

    // Integer
    let query = prefix_query::parse(&QueryParseContext::new(), &jint(123));
    assert_eq!(query, Err(QueryParseError::ExpectedObject));

    // Decimal
    let query = prefix_query::parse(
        &QueryParseContext::new(),
        &JsonValue::Number(Number { mantissa: 1231234, scale: 4 }),
    );
    assert_eq!(query, Err(QueryParseError::ExpectedObject));
}

#[test]
fn test_gives_error_for_incorrect_boost_type() {
    // String
    let query = prefix_query::parse(
        &QueryParseContext::new(),
        &obj(vec![("foo", obj(vec![("boost", jstr("2")), ("query", jstr("bar"))]))]),
    );
    assert_eq!(query, Err(QueryParseError::ExpectedFloat));

    // Array
    let query = prefix_query::parse(
        &QueryParseContext::new(),
        &obj(vec![(
            "foo",
            obj(vec![("boost", JsonValue::Array(vec![jint(2)])), ("query", jstr("bar"))]),
        )]),
    );
    assert_eq!(query, Err(QueryParseError::ExpectedFloat));

    // Object
    let query = prefix_query::parse(
        &QueryParseContext::new(),
        &obj(vec![(
            "foo",
            obj(vec![("boost", obj(vec![("value", jint(2))])), ("query", jstr("bar"))]),
        )]),
    );
    assert_eq!(query, Err(QueryParseError::ExpectedFloat));
}

#[test]
fn test_gives_error_for_missing_value() {
    let query = prefix_query::parse(
        &QueryParseContext::new(),
        &obj(vec![("foo", obj(vec![]))]),
    );
    assert_eq!(query, Err(QueryParseError::ExpectedKey("value")));
}

#[test]
fn test_gives_error_for_extra_key() {
    let query = prefix_query::parse(
        &QueryParseContext::new(),
        &obj(vec![
            ("foo", obj(vec![("query", jstr("bar"))])),
            ("hello", jstr("world")),
        ]),
    );
    assert_eq!(query, Err(QueryParseError::ExpectedSingleKey));
}

#[test]
fn test_gives_error_for_extra_inner_key() {
    let query = prefix_query::parse(
        &QueryParseContext::new(),
        &obj(vec![("foo", obj(vec![("hello", jstr("world")), ("query", jstr("bar"))]))]),
    );
    assert_eq!(query, Err(QueryParseError::UnrecognisedKey(s("hello"))));
}

#[test]
fn test_and_query() {
    let query = and_query::parse(
        &QueryParseContext::new(),
        &JsonValue::Array(vec![
            obj(vec![("term", obj(vec![("test", jstr("foo"))]))]),
            obj(vec![("term", obj(vec![("test", jstr("bar"))]))]),
        ]),
    );
    assert_eq!(
        query,
        Ok(Query::Conjunction {
            queries: vec![
                Query::MatchTerm {
                    field: s("test"),
                    term: Term::String(s("foo")),
                    matcher: TermMatcher::Exact,
                    boost: 1000,
                },
                Query::MatchTerm {
                    field: s("test"),
                    term: Term::String(s("bar")),
                    matcher: TermMatcher::Exact,
                    boost: 1000,
                },
            ],
        })
    );
}

#[test]
fn and_query_test_gives_error_for_incorrect_type() {
    // String
    let query = and_query::parse(&QueryParseContext::new(), &jstr("hello"));
    assert_eq!(query, Err(QueryParseError::ExpectedArray));

    // Object
    let query = and_query::parse(&QueryParseContext::new(), &obj(vec![("foo", jstr("bar"))]));
    assert_eq!(query, Err(QueryParseError::ExpectedArray));

    // Integer
    let query = and_query::parse(&QueryParseContext::new(), &jint(123));
    assert_eq!(query, Err(QueryParseError::ExpectedArray));

    // Decimal
    let query = and_query::parse(
        &QueryParseContext::new(),
        &JsonValue::Number(Number { mantissa: 1231234, scale: 4 }),
    );
    assert_eq!(query, Err(QueryParseError::ExpectedArray));
}

#[test]
fn test_prefix_clause_with_boost_end_to_end() {
    // {"foo": {"value": "bar", "boost": 2}} parsed as a prefix clause
    let query = prefix_query::parse(
        &QueryParseContext::new(),
        &obj(vec![("foo", obj(vec![("boost", jint(2)), ("value", jstr("bar"))]))]),
    )
    .unwrap();
    assert_eq!(
        query,
        Query::BoostScore {
            query: Box::new(Query::MatchTerm {
                field: s("foo"),
                term: Term::String(s("bar")),
                matcher: TermMatcher::Prefix,
                boost: 1000,
            }),
            boost: 2000,
        }
    );
}

#[test]
fn test_gives_error_for_non_object_non_string_clause_body() {
    let query = prefix_query::parse(&QueryParseContext::new(), &obj(vec![("foo", jint(5))]));
    assert_eq!(query, Err(QueryParseError::ExpectedObjectOrString));
    let query = prefix_query::parse(
        &QueryParseContext::new(),
        &obj(vec![("foo", JsonValue::Boolean(true))]),
    );
    assert_eq!(query, Err(QueryParseError::ExpectedObjectOrString));
}

#[test]
fn test_dispatch_parses_term_query_full_form() {
    let query = rusticsearch::parser::parse(
        &QueryParseContext::new(),
        &obj(vec![("term", obj(vec![("test", obj(vec![("value", jstr("foo"))]))]))]),
    );
    assert_eq!(
        query,
        Ok(Query::MatchTerm {
            field: s("test"),
            term: Term::String(s("foo")),
            matcher: TermMatcher::Exact,
            boost: 1000,
        })
    );
}

#[test]
fn test_dispatch_unknown_query_type() {
    let query = rusticsearch::parser::parse(
        &QueryParseContext::new(),
        &obj(vec![("fuzzy", obj(vec![("foo", jstr("bar"))]))]),
    );
    assert_eq!(query, Err(QueryParseError::UnrecognisedKey(s("fuzzy"))));
}
