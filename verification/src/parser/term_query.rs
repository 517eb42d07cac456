//! Parser for term queries: exact matches of one field against one
//! literal, in shorthand `{field: literal}` or full form
//! `{field: {"value": literal, "boost": number}}`.

use vstd::prelude::*;

use crate::json::JsonValue;
use crate::parser::{
    parse_term_like, spec_parse_term_like, QueryParseContext, QueryParseError,
};
use crate::query::Query;
use crate::term::TermMatcher;

verus! {

/// Parse one term clause.
pub fn parse(context: &QueryParseContext, json: &JsonValue) -> (r: Result<Query, QueryParseError>)
    ensures
        r == spec_parse_term_like(*json, TermMatcher::Exact, false),
{
    parse_term_like(json, TermMatcher::Exact, false)
}

} // verus!
