//! Parser for conjunctions: an array of clause objects, each parsed
//! through the shared dispatch entry point and combined into one
//! conjunction node.  The first sub-parse failure aborts the whole
//! parse — fail-fast, no partial trees.

use vstd::prelude::*;

use crate::json::JsonValue;
use crate::parser::{parse as parse_query, spec_parse_query, QueryParseContext, QueryParseError};
use crate::query::Query;

verus! {

/// The exact result of parsing a sequence of clause objects, left to
/// right, keeping the first error.
pub open spec fn spec_parse_clauses(items: Seq<JsonValue>) -> Result<Seq<Query>, QueryParseError>
    decreases items.len(),
{
    if items.len() == 0 {
        Ok(Seq::<Query>::empty())
    } else {
        match spec_parse_clauses(items.drop_last()) {
            Err(e) => Err(e),
            Ok(qs) => match spec_parse_query(items.last()) {
                Err(e) => Err(e),
                Ok(q) => Ok(qs.push(q)),
            },
        }
    }
}

/// The exact result of parsing a conjunction body: the input must be
/// an array, whose clauses all parse.
pub open spec fn spec_parse_and_query(json: JsonValue) -> Result<Seq<Query>, QueryParseError> {
    match json {
        JsonValue::Array(items) => spec_parse_clauses(items@),
        _ => Err(QueryParseError::ExpectedArray),
    }
}

/// A clause sequence fails to parse with the error of its first
/// failing clause.
proof fn lemma_parse_clauses_err(items: Seq<JsonValue>, j: int)
    requires
        0 <= j < items.len(),
        spec_parse_clauses(items.subrange(0, j)) is Ok,
        spec_parse_query(items[j]) is Err,
    ensures
        spec_parse_clauses(items) == Err::<Seq<Query>, QueryParseError>(
            spec_parse_query(items[j])->Err_0,
        ),
    decreases items.len(),
{
    if j == items.len() - 1 {
        assert(items.drop_last() =~= items.subrange(0, j));
    } else {
        assert(items.drop_last().subrange(0, j) =~= items.subrange(0, j));
        assert(items.drop_last()[j] == items[j]);
        lemma_parse_clauses_err(items.drop_last(), j);
    }
}

/// Parse a conjunction of clauses.
#[verifier::loop_isolation(false)]
pub fn parse(context: &QueryParseContext, json: &JsonValue) -> (r: Result<Query, QueryParseError>)
    ensures
        (r is Ok) == (spec_parse_and_query(*json) is Ok),
        r matches Ok(q) ==> q matches Query::Conjunction { queries } && spec_parse_and_query(*json)
            == Ok::<Seq<Query>, QueryParseError>(queries@),
        r matches Err(e) ==> spec_parse_and_query(*json) == Err::<Seq<Query>, QueryParseError>(e),
{
    let items = match json {
        JsonValue::Array(items) => items,
        _ => {
            return Err(QueryParseError::ExpectedArray);
        },
    };
    let mut sub_queries: Vec<Query> = Vec::new();
    let mut i: usize = 0;
    proof {
        assert(items@.subrange(0, 0) =~= Seq::<JsonValue>::empty());
    }
    while i < items.len()
        invariant
            i <= items@.len(),
            spec_parse_clauses(items@.subrange(0, i as int)) == Ok::<Seq<Query>, QueryParseError>(
                sub_queries@,
            ),
        decreases items@.len() - i,
    {
        proof {
            assert(items@.subrange(0, (i + 1) as int).drop_last() =~= items@.subrange(0, i as int));
            assert(items@.subrange(0, (i + 1) as int).last() == items@[i as int]);
        }
        match parse_query(context, &items[i]) {
            Ok(q) => {
                sub_queries.push(q);
            },
            Err(e) => {
                proof {
                    lemma_parse_clauses_err(items@, i as int);
                }
                return Err(e);
            },
        }
        i = i + 1;
    }
    proof {
        assert(items@.subrange(0, items@.len() as int) =~= items@);
    }
    Ok(Query::new_conjunction(sub_queries))
}

} // verus!
