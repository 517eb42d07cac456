//! The query tree: a closed recursive description of a search request.

use vstd::prelude::*;

use crate::term::{Term, TermMatcher};

verus! {

/// One node of a search request.
///
/// Boosts and `minimum_should_match` carry the invariants of the data
/// model: a boost is a positive fixed-point multiplier (thousandths,
/// default `SCALE` = 1.0) and `minimum_should_match` is non-negative.
/// Every consumer matches on this enum exhaustively, so adding a
/// variant is a compile-time-visible change.
#[derive(Debug, PartialEq)]
pub enum Query {
    MatchAll { boost: u64 },
    MatchNone,
    MatchTerm { field: String, term: Term, matcher: TermMatcher, boost: u64 },
    Bool {
        must: Vec<Query>,
        must_not: Vec<Query>,
        should: Vec<Query>,
        filter: Vec<Query>,
        minimum_should_match: u64,
        boost: u64,
    },
    DisjunctionMax { queries: Vec<Query>, boost: u64 },
    BoostScore { query: Box<Query>, boost: u64 },
    Conjunction { queries: Vec<Query> },
}

impl Query {
    /// Build a conjunction (boolean AND) of the given sub-queries.
    pub fn new_conjunction(queries: Vec<Query>) -> (r: Query)
        ensures
            r == (Query::Conjunction { queries }),
    {
        Query::Conjunction { queries }
    }
}

} // verus!
