//! Parser for prefix queries.
//!
//! Prefix queries are very similar to term queries except that they
//! also match prefixes of terms.  Shorthand and full form:
//!
//! ```text
//! { "foo": "bar" }
//! { "foo": { "value": "bar", "boost": 2.0 } }
//! ```
//!
//! The term value may be given under `value` or under `prefix`.

use vstd::prelude::*;

use crate::json::JsonValue;
use crate::parser::{
    parse_term_like, spec_parse_term_like, QueryParseContext, QueryParseError,
};
use crate::query::Query;
use crate::term::TermMatcher;

verus! {

/// Parse one prefix clause.
pub fn parse(context: &QueryParseContext, json: &JsonValue) -> (r: Result<Query, QueryParseError>)
    ensures
        r == spec_parse_term_like(*json, TermMatcher::Prefix, true),
{
    parse_term_like(json, TermMatcher::Prefix, true)
}

} // verus!
