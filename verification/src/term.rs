//! Search terms and the matchers that compare them with field values.

use vstd::prelude::*;

use crate::json::{JsonValue, Number};
use crate::strings::{str_eq, str_starts_with};

verus! {

/// A search-side literal being matched against field contents.
///
/// Only `String` terms are interpretable by the matchers; the other
/// kinds record what the request held and never match.
#[derive(Debug, Clone, PartialEq)]
pub enum Term {
    String(String),
    Number(Number),
    Boolean(bool),
    Null,
}

/// The term value a parser builds from one JSON-like literal.
pub open spec fn spec_term_from_json(json: JsonValue) -> Term {
    match json {
        JsonValue::String(s) => Term::String(s),
        JsonValue::Number(n) => Term::Number(n),
        JsonValue::Boolean(b) => Term::Boolean(b),
        _ => Term::Null,
    }
}

impl Term {
    /// Build a term from a JSON-like literal: strings, numbers and
    /// booleans carry over; arrays, objects and null become `Null`.
    pub fn from_json(json: &JsonValue) -> (r: Term)
        ensures
            r == spec_term_from_json(*json),
    {
        match json {
            JsonValue::String(s) => Term::String(s.clone()),
            JsonValue::Number(n) => Term::Number(*n),
            JsonValue::Boolean(b) => Term::Boolean(*b),
            _ => Term::Null,
        }
    }
}

/// How a term is compared with a field string: exact equality, or a
/// string-prefix test.
#[derive(Debug, Clone, Copy, PartialEq, Eq)]
pub enum TermMatcher {
    Exact,
    Prefix,
}

/// What each matcher means on character sequences.
pub open spec fn spec_matches(matcher: TermMatcher, field_value: Seq<char>, term: Seq<char>) -> bool {
    match matcher {
        TermMatcher::Exact => field_value == term,
        TermMatcher::Prefix => term.is_prefix_of(field_value),
    }
}

impl TermMatcher {
    /// `Exact` matches iff the strings are equal; `Prefix` matches iff
    /// the field string starts with the term string.
    pub fn matches(&self, field_value: &str, term: &str) -> (r: bool)
        ensures
            r == spec_matches(*self, field_value@, term@),
    {
        match self {
            TermMatcher::Exact => str_eq(field_value, term),
            TermMatcher::Prefix => str_starts_with(field_value, term),
        }
    }
}

} // verus!
