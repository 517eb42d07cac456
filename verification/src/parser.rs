//! Shared parser machinery: the error taxonomy, the parse context, the
//! boost coercion, and the single-clause grammar common to the term-like
//! query parsers, together with the dispatch entry point.
//!
//! A clause is either shorthand `{field: literal}` or full form
//! `{field: {option: value, ...}}` with exactly one top-level field key.
//! Parsing is fail-fast: the first structural error is returned.

use vstd::prelude::*;

use crate::json::{spec_number_millis, JsonValue};
use crate::query::Query;
use crate::score::SCALE;
use crate::strings::str_eq;
use crate::term::{spec_term_from_json, Term, TermMatcher};

pub mod and_query;
pub mod prefix_query;
pub mod term_query;

verus! {

/// A structural or validation failure of a request body; always the
/// first one encountered, carrying the offending key where there is one.
#[derive(Debug, PartialEq, Eq)]
pub enum QueryParseError {
    ExpectedObject,
    ExpectedArray,
    ExpectedObjectOrString,
    ExpectedSingleKey,
    UnrecognisedKey(String),
    ExpectedFloat,
    ExpectedKey(&'static str),
}

/// Parse-time context.  It would expose read access to the target
/// index for field-aware validation; the parsers here are
/// context-independent, so it carries nothing yet.
pub struct QueryParseContext {}

impl QueryParseContext {
    pub fn new() -> (r: QueryParseContext) {
        QueryParseContext {}
    }
}

/// The boost a JSON-like value coerces to: numbers (integer or
/// decimal) become fixed-point thousandths, every other shape is
/// `ExpectedFloat`.
pub open spec fn spec_parse_boost(v: JsonValue) -> Result<u64, QueryParseError> {
    match v {
        JsonValue::Number(n) => Ok(spec_number_millis(n)),
        _ => Err(QueryParseError::ExpectedFloat),
    }
}

/// Coerce a JSON-like value to a fixed-point boost.
pub fn parse_boost(v: &JsonValue) -> (r: Result<u64, QueryParseError>)
    ensures
        r == spec_parse_boost(*v),
{
    match v {
        JsonValue::Number(n) => Ok(n.to_millis()),
        _ => Err(QueryParseError::ExpectedFloat),
    }
}

/// Left-to-right scan of a full-form clause's option entries.
///
/// A value key (`value`, and `prefix` where the alias is accepted)
/// replaces the pending term value; `boost` must coerce to a number;
/// any other key is `UnrecognisedKey`, reported at once.
pub open spec fn spec_scan_options(
    entries: Seq<(String, JsonValue)>,
    accept_prefix_alias: bool,
    value: Option<JsonValue>,
    boost: u64,
) -> Result<(Option<JsonValue>, u64), QueryParseError>
    decreases entries.len(),
{
    if entries.len() == 0 {
        Ok((value, boost))
    } else {
        let key = entries[0].0;
        let val = entries[0].1;
        if key@ == "value"@ || (accept_prefix_alias && key@ == "prefix"@) {
            spec_scan_options(entries.drop_first(), accept_prefix_alias, Some(val), boost)
        } else if key@ == "boost"@ {
            match spec_parse_boost(val) {
                Ok(b) => spec_scan_options(entries.drop_first(), accept_prefix_alias, value, b),
                Err(e) => Err(e),
            }
        } else {
            Err(QueryParseError::UnrecognisedKey(key))
        }
    }
}

/// The query a term-like clause builds: a term match of the clause's
/// field, wrapped in a boost node when the boost is not 1.0.
pub open spec fn spec_build_term_query(
    field: String,
    value: JsonValue,
    matcher: TermMatcher,
    boost: u64,
) -> Query {
    let base = Query::MatchTerm {
        field,
        term: spec_term_from_json(value),
        matcher,
        boost: SCALE,
    };
    if boost != SCALE {
        Query::BoostScore { query: Box::new(base), boost }
    } else {
        base
    }
}

/// The exact result of parsing one term-like clause with the given
/// matcher: shorthand `{field: "text"}`, or full form
/// `{field: {options}}` whose scanned value key is required.
pub open spec fn spec_parse_term_like(
    json: JsonValue,
    matcher: TermMatcher,
    accept_prefix_alias: bool,
) -> Result<Query, QueryParseError> {
    match json {
        JsonValue::Object(entries) => {
            if entries@.len() != 1 {
                Err(QueryParseError::ExpectedSingleKey)
            } else {
                let field = entries@[0].0;
                match entries@[0].1 {
                    JsonValue::String(s) => Ok(
                        spec_build_term_query(field, JsonValue::String(s), matcher, SCALE),
                    ),
                    JsonValue::Object(opts) => {
                        match spec_scan_options(opts@, accept_prefix_alias, None, SCALE) {
                            Err(e) => Err(e),
                            Ok((None, _)) => Err(QueryParseError::ExpectedKey("value")),
                            Ok((Some(v), b)) => Ok(spec_build_term_query(field, v, matcher, b)),
                        }
                    },
                    _ => Err(QueryParseError::ExpectedObjectOrString),
                }
            }
        },
        _ => Err(QueryParseError::ExpectedObject),
    }
}

/// Parse one term-like clause; shared by the term and prefix parsers.
#[verifier::loop_isolation(false)]
pub(crate) fn parse_term_like(json: &JsonValue, matcher: TermMatcher, accept_prefix_alias: bool) -> (r:
    Result<Query, QueryParseError>)
    ensures
        r == spec_parse_term_like(*json, matcher, accept_prefix_alias),
{
    let entries = match json {
        JsonValue::Object(entries) => entries,
        _ => {
            return Err(QueryParseError::ExpectedObject);
        },
    };
    if entries.len() != 1 {
        return Err(QueryParseError::ExpectedSingleKey);
    }
    let field = &entries[0].0;
    let inner = &entries[0].1;
    match inner {
        JsonValue::String(_) => Ok(
            build_term_query(field.clone(), inner, matcher, SCALE),
        ),
        JsonValue::Object(opts) => {
            let mut value: Option<&JsonValue> = None;
            let mut boost: u64 = SCALE;
            let mut i: usize = 0;
            proof {
                assert(opts@.subrange(0, opts@.len() as int) =~= opts@);
            }
            while i < opts.len()
                invariant
                    i <= opts@.len(),
                    spec_scan_options(opts@, accept_prefix_alias, None, SCALE) == spec_scan_options(
                        opts@.subrange(i as int, opts@.len() as int),
                        accept_prefix_alias,
                        match value {
                            Some(v) => Some(*v),
                            None => None,
                        },
                        boost,
                    ),
                decreases opts@.len() - i,
            {
                let ghost suffix = opts@.subrange(i as int, opts@.len() as int);
                proof {
                    assert(suffix[0] == opts@[i as int]);
                    assert(suffix.drop_first() =~= opts@.subrange(i + 1, opts@.len() as int));
                }
                let key = &opts[i].0;
                let val = &opts[i].1;
                if str_eq(key.as_str(), "value") || (accept_prefix_alias && str_eq(
                    key.as_str(),
                    "prefix",
                )) {
                    value = Some(val);
                } else if str_eq(key.as_str(), "boost") {
                    match parse_boost(val) {
                        Ok(b) => {
                            boost = b;
                        },
                        Err(e) => {
                            return Err(e);
                        },
                    }
                } else {
                    return Err(QueryParseError::UnrecognisedKey(key.clone()));
                }
                i = i + 1;
            }
            proof {
                assert(opts@.subrange(i as int, opts@.len() as int).len() == 0);
            }
            match value {
                Some(v) => Ok(build_term_query(field.clone(), v, matcher, boost)),
                None => Err(QueryParseError::ExpectedKey("value")),
            }
        },
        _ => Err(QueryParseError::ExpectedObjectOrString),
    }
}

/// Build the query node of one parsed term-like clause.
fn build_term_query(field: String, value: &JsonValue, matcher: TermMatcher, boost: u64) -> (r:
    Query)
    ensures
        r == spec_build_term_query(field, *value, matcher, boost),
{
    let base = Query::MatchTerm { field, term: Term::from_json(value), matcher, boost: SCALE };
    if boost != SCALE {
        Query::BoostScore { query: Box::new(base), boost }
    } else {
        base
    }
}

/// Shorthand and full form agree: `{field: "text"}` and
/// `{field: {"value": "text"}}` parse to the identical query node.
pub proof fn lemma_shorthand_equals_full_form(
    short: JsonValue,
    full: JsonValue,
    matcher: TermMatcher,
    accept_prefix_alias: bool,
    field: String,
    text: String,
)
    requires
        short matches JsonValue::Object(outer) && outer@.len() == 1 && outer@[0].0 == field
            && outer@[0].1 == JsonValue::String(text),
        full matches JsonValue::Object(outer) && outer@.len() == 1 && outer@[0].0 == field && (
        outer@[0].1 matches JsonValue::Object(opts) && opts@.len() == 1 && opts@[0].0@ == "value"@
            && opts@[0].1 == JsonValue::String(text)),
    ensures
        spec_parse_term_like(short, matcher, accept_prefix_alias) == spec_parse_term_like(
            full,
            matcher,
            accept_prefix_alias,
        ),
        spec_parse_term_like(short, matcher, accept_prefix_alias) == Ok::<Query, QueryParseError>(
            Query::MatchTerm {
                field,
                term: Term::String(text),
                matcher,
                boost: SCALE,
            },
        ),
{
    let outer = full->Object_0;
    let opts = outer@[0].1->Object_0;
    assert(opts@.drop_first().len() == 0);
    assert(spec_scan_options(
        opts@.drop_first(),
        accept_prefix_alias,
        Some(JsonValue::String(text)),
        SCALE,
    ) == Ok::<(Option<JsonValue>, u64), QueryParseError>((Some(JsonValue::String(text)), SCALE)));
    assert(spec_scan_options(opts@, accept_prefix_alias, None, SCALE) == spec_scan_options(
        opts@.drop_first(),
        accept_prefix_alias,
        Some(opts@[0].1),
        SCALE,
    ));
    assert(spec_scan_options(opts@, accept_prefix_alias, None, SCALE) == Ok::<
        (Option<JsonValue>, u64),
        QueryParseError,
    >((Some(JsonValue::String(text)), SCALE)));
}

/// The exact result of the shared dispatch entry point: one top-level
/// key names the query type, whose parser receives the key's value.
pub open spec fn spec_parse_query(json: JsonValue) -> Result<Query, QueryParseError> {
    match json {
        JsonValue::Object(entries) => {
            if entries@.len() != 1 {
                Err(QueryParseError::ExpectedSingleKey)
            } else {
                let key = entries@[0].0;
                let val = entries@[0].1;
                if key@ == "term"@ {
                    spec_parse_term_like(val, TermMatcher::Exact, false)
                } else if key@ == "prefix"@ {
                    spec_parse_term_like(val, TermMatcher::Prefix, true)
                } else {
                    Err(QueryParseError::UnrecognisedKey(key))
                }
            }
        },
        _ => Err(QueryParseError::ExpectedObject),
    }
}

/// Shared dispatch entry point: inspect the query-type key and
/// delegate to that type's parser.
pub fn parse(context: &QueryParseContext, json: &JsonValue) -> (r: Result<Query, QueryParseError>)
    ensures
        r == spec_parse_query(*json),
{
    let entries = match json {
        JsonValue::Object(entries) => entries,
        _ => {
            return Err(QueryParseError::ExpectedObject);
        },
    };
    if entries.len() != 1 {
        return Err(QueryParseError::ExpectedSingleKey);
    }
    let key = &entries[0].0;
    let val = &entries[0].1;
    if str_eq(key.as_str(), "term") {
        term_query::parse(context, val)
    } else if str_eq(key.as_str(), "prefix") {
        prefix_query::parse(context, val)
    } else {
        Err(QueryParseError::UnrecognisedKey(key.clone()))
    }
}

} // verus!
