//! The ranking engine: recursive evaluation of a query tree against one
//! document.
//!
//! `rank` returns `None` for "no match" and `Some(score)` for a match
//! with a non-negative fixed-point relevance score.  Ranking never
//! fails: missing fields and type-mismatched field data are ordinary
//! non-matches.  The spec functions below give the exact score of every
//! node kind, and `rank` is proved to return precisely that.

use vstd::prelude::*;

use crate::query::Query;
use crate::score::{
    add_scores, count_times_boost, div_count, mul_boost, spec_add_scores, spec_count_times_boost,
    spec_div_count, spec_mul_boost, SCALE,
};
use crate::term::{spec_matches, Term};
use crate::value::{field_lookup, Document, Value};

verus! {

/// Number of entries of `tokens` that the matcher matches against `term`.
pub open spec fn spec_count_token_matches(
    tokens: Seq<String>,
    matcher: crate::term::TermMatcher,
    term: Seq<char>,
) -> int
    decreases tokens.len(),
{
    if tokens.len() == 0 {
        0
    } else {
        spec_count_token_matches(tokens.drop_last(), matcher, term) + if spec_matches(
            matcher,
            tokens.last()@,
            term,
        ) {
            1int
        } else {
            0int
        }
    }
}

/// Score of a term clause: look the field up, then match by value kind.
///
/// A plain string field scores `boost` when the matcher accepts it; a
/// token-vector field scores `matched-token-count * boost` when at
/// least one token matches; an absent field, a non-string term or any
/// other value kind is a silent non-match.
pub open spec fn spec_rank_term(
    field: String,
    term: Term,
    matcher: crate::term::TermMatcher,
    boost: u64,
    doc: Document,
) -> Option<u64> {
    match field_lookup(doc.fields@, field@) {
        Some(Value::String(v)) => match term {
            Term::String(t) => if spec_matches(matcher, v@, t@) {
                Some(boost)
            } else {
                None
            },
            _ => None,
        },
        Some(Value::TSVector(tokens)) => match term {
            Term::String(t) => {
                let c = spec_count_token_matches(tokens@, matcher, t@);
                if c > 0 {
                    Some(spec_count_times_boost(c, boost))
                } else {
                    None
                }
            },
            _ => None,
        },
        _ => None,
    }
}

/// True when some query of `qs` matches the document (boolean sense).
pub open spec fn spec_any_matches(qs: Seq<Query>, doc: Document) -> bool
    decreases qs,
{
    exists|i: int| 0 <= i < qs.len() && rank_spec(qs[i], doc) is Some
}

/// True when every query of `qs` matches the document (boolean sense).
pub open spec fn spec_all_match(qs: Seq<Query>, doc: Document) -> bool
    decreases qs,
{
    forall|i: int| 0 <= i < qs.len() ==> rank_spec(qs[i], doc) is Some
}

/// Saturating sum of the scores of `qs`, `None` as soon as one of them
/// fails to match.
pub open spec fn spec_sum_must(qs: Seq<Query>, doc: Document) -> Option<u64>
    decreases qs,
{
    if qs.len() == 0 {
        Some(0u64)
    } else {
        match (spec_sum_must(qs.drop_last(), doc), rank_spec(qs.last(), doc)) {
            (Some(acc), Some(s)) => Some(spec_add_scores(acc, s)),
            _ => None,
        }
    }
}

/// Running saturating sum, starting from `init`, of the scores of the
/// matching queries of `qs`; non-matching queries contribute nothing.
pub open spec fn spec_should_sum(qs: Seq<Query>, doc: Document, init: u64) -> u64
    decreases qs,
{
    if qs.len() == 0 {
        init
    } else {
        let rest = spec_should_sum(qs.drop_last(), doc, init);
        match rank_spec(qs.last(), doc) {
            Some(s) => spec_add_scores(rest, s),
            None => rest,
        }
    }
}

/// Number of queries of `qs` that match the document.
pub open spec fn spec_should_count(qs: Seq<Query>, doc: Document) -> int
    decreases qs,
{
    if qs.len() == 0 {
        0
    } else {
        spec_should_count(qs.drop_last(), doc) + if rank_spec(qs.last(), doc) is Some {
            1int
        } else {
            0int
        }
    }
}

/// Greatest score among the matching queries of `qs`, `None` when none
/// of them matches.
pub open spec fn spec_max_rank(qs: Seq<Query>, doc: Document) -> Option<u64>
    decreases qs,
{
    if qs.len() == 0 {
        None
    } else {
        let rest = spec_max_rank(qs.drop_last(), doc);
        match (rest, rank_spec(qs.last(), doc)) {
            (Some(m), Some(s)) => Some(if s > m {
                s
            } else {
                m
            }),
            (None, Some(s)) => Some(s),
            (Some(m), None) => Some(m),
            (None, None) => None,
        }
    }
}

/// The exact score of a query tree against one document.
///
/// The boolean clause is evaluated in order: a matching `must_not`
/// clause or a non-matching `filter` clause rejects; every `must`
/// clause must match and their scores accumulate; matching `should`
/// clauses accumulate and are counted against `minimum_should_match`;
/// the accumulated score is boosted and averaged over the `must` and
/// `should` clauses, with the empty case a vacuous match scoring
/// `boost`.  A conjunction is sugar for a boolean clause with only
/// `must` populated and boost 1.0.
pub open spec fn rank_spec(q: Query, doc: Document) -> Option<u64>
    decreases q,
{
    match q {
        Query::MatchAll { boost } => Some(boost),
        Query::MatchNone => None,
        Query::MatchTerm { field, term, matcher, boost } => spec_rank_term(
            field,
            term,
            matcher,
            boost,
            doc,
        ),
        Query::Bool { must, must_not, should, filter, minimum_should_match, boost } => {
            if spec_any_matches(must_not@, doc) {
                None
            } else if !spec_all_match(filter@, doc) {
                None
            } else {
                match spec_sum_must(must@, doc) {
                    None => None,
                    Some(must_total) => {
                        let total = spec_should_sum(should@, doc, must_total);
                        let c = spec_should_count(should@, doc);
                        if c < minimum_should_match {
                            None
                        } else if must@.len() + should@.len() == 0 {
                            Some(boost)
                        } else {
                            Some(
                                spec_div_count(
                                    spec_mul_boost(total, boost),
                                    must@.len() + should@.len() as int,
                                ),
                            )
                        }
                    },
                }
            }
        },
        Query::DisjunctionMax { queries, boost } => match spec_max_rank(queries@, doc) {
            Some(m) => Some(spec_mul_boost(m, boost)),
            None => None,
        },
        Query::BoostScore { query, boost } => match rank_spec(*query, doc) {
            Some(s) => Some(spec_mul_boost(s, boost)),
            None => None,
        },
        Query::Conjunction { queries } => match spec_sum_must(queries@, doc) {
            None => None,
            Some(total) => if queries@.len() == 0 {
                Some(SCALE)
            } else {
                Some(spec_div_count(total, queries@.len() as int))
            },
        },
    }
}

/// Boolean-sense match: the query has some score against the document.
pub open spec fn spec_query_matches(q: Query, doc: Document) -> bool {
    rank_spec(q, doc) is Some
}

/// A sequence sum is `None` as soon as one of its queries fails to match.
proof fn lemma_sum_must_none(qs: Seq<Query>, doc: Document, j: int)
    requires
        0 <= j < qs.len(),
        rank_spec(qs[j], doc) is None,
    ensures
        spec_sum_must(qs, doc) is None,
    decreases qs.len(),
{
    if j < qs.len() - 1 {
        assert(qs.drop_last()[j] == qs[j]);
        lemma_sum_must_none(qs.drop_last(), doc, j);
    }
}

impl Query {
    /// Score this query against one document: `None` is no match,
    /// `Some(score)` a match with a non-negative fixed-point score.
    #[verifier::loop_isolation(false)]
    pub fn rank(&self, doc: &Document) -> (r: Option<u64>)
        ensures
            r == rank_spec(*self, *doc),
        decreases *self,
    {
        match self {
            Query::MatchAll { boost } => Some(*boost),
            Query::MatchNone => None,
            Query::MatchTerm { field, term, matcher, boost } => {
                match doc.get_field(field.as_str()) {
                    None => None,
                    Some(found) => match found {
                        Value::String(fv) => match term {
                            Term::String(t) => {
                                if matcher.matches(fv.as_str(), t.as_str()) {
                                    Some(*boost)
                                } else {
                                    None
                                }
                            },
                            _ => None,
                        },
                        Value::TSVector(tokens) => match term {
                            Term::String(t) => {
                                let mut c: usize = 0;
                                let mut i: usize = 0;
                                while i < tokens.len()
                                    invariant
                                        i <= tokens@.len(),
                                        c <= i,
                                        c == spec_count_token_matches(
                                            tokens@.subrange(0, i as int),
                                            *matcher,
                                            t@,
                                        ),
                                    decreases tokens@.len() - i,
                                {
                                    proof {
                                        assert(tokens@.subrange(0, (i + 1) as int).drop_last()
                                            =~= tokens@.subrange(0, i as int));
                                        assert(tokens@.subrange(0, (i + 1) as int).last()
                                            == tokens@[i as int]);
                                    }
                                    if matcher.matches(tokens[i].as_str(), t.as_str()) {
                                        c = c + 1;
                                    }
                                    i = i + 1;
                                }
                                proof {
                                    assert(tokens@.subrange(0, tokens@.len() as int) =~= tokens@);
                                }
                                if c > 0 {
                                    Some(count_times_boost(c, *boost))
                                } else {
                                    None
                                }
                            },
                            _ => None,
                        },
                        _ => None,
                    },
                }
            },
            Query::Bool { must, must_not, should, filter, minimum_should_match, boost } => {
                let mut i: usize = 0;
                while i < must_not.len()
                    invariant
                        i <= must_not@.len(),
                        forall|j: int| 0 <= j < i ==> rank_spec(must_not@[j], *doc) is None,
                    decreases must_not@.len() - i,
                {
                    if must_not[i].rank(doc).is_some() {
                        proof {
                            assert(rank_spec(must_not@[i as int], *doc) is Some);
                            assert(spec_any_matches(must_not@, *doc));
                        }
                        return None;
                    }
                    i = i + 1;
                }
                let mut i: usize = 0;
                while i < filter.len()
                    invariant
                        i <= filter@.len(),
                        !spec_any_matches(must_not@, *doc),
                        forall|j: int| 0 <= j < i ==> rank_spec(filter@[j], *doc) is Some,
                    decreases filter@.len() - i,
                {
                    if filter[i].rank(doc).is_none() {
                        proof {
                            assert(rank_spec(filter@[i as int], *doc) is None);
                            assert(!spec_all_match(filter@, *doc));
                        }
                        return None;
                    }
                    i = i + 1;
                }
                let mut acc: u64 = 0;
                let mut i: usize = 0;
                proof {
                    assert(must@.subrange(0, 0) =~= Seq::<Query>::empty());
                }
                while i < must.len()
                    invariant
                        i <= must@.len(),
                        !spec_any_matches(must_not@, *doc),
                        spec_all_match(filter@, *doc),
                        Some(acc) == spec_sum_must(must@.subrange(0, i as int), *doc),
                    decreases must@.len() - i,
                {
                    proof {
                        assert(must@.subrange(0, (i + 1) as int).drop_last() =~= must@.subrange(
                            0,
                            i as int,
                        ));
                        assert(must@.subrange(0, (i + 1) as int).last() == must@[i as int]);
                    }
                    match must[i].rank(doc) {
                        Some(s) => {
                            acc = add_scores(acc, s);
                        },
                        None => {
                            proof {
                                lemma_sum_must_none(must@, *doc, i as int);
                            }
                            return None;
                        },
                    }
                    i = i + 1;
                }
                proof {
                    assert(must@.subrange(0, must@.len() as int) =~= must@);
                }
                let ghost must_total = acc;
                let mut count: usize = 0;
                let mut i: usize = 0;
                while i < should.len()
                    invariant
                        i <= should@.len(),
                        count <= i,
                        !spec_any_matches(must_not@, *doc),
                        spec_all_match(filter@, *doc),
                        Some(must_total) == spec_sum_must(must@, *doc),
                        acc == spec_should_sum(should@.subrange(0, i as int), *doc, must_total),
                        count == spec_should_count(should@.subrange(0, i as int), *doc),
                    decreases should@.len() - i,
                {
                    proof {
                        assert(should@.subrange(0, (i + 1) as int).drop_last() =~= should@.subrange(
                            0,
                            i as int,
                        ));
                        assert(should@.subrange(0, (i + 1) as int).last() == should@[i as int]);
                    }
                    match should[i].rank(doc) {
                        Some(s) => {
                            count = count + 1;
                            acc = add_scores(acc, s);
                        },
                        None => {},
                    }
                    i = i + 1;
                }
                proof {
                    assert(should@.subrange(0, should@.len() as int) =~= should@);
                }
                if (count as u64) < *minimum_should_match {
                    return None;
                }
                let n: u128 = must.len() as u128 + should.len() as u128;
                if n == 0 {
                    Some(*boost)
                } else {
                    Some(div_count(mul_boost(acc, *boost), n))
                }
            },
            Query::DisjunctionMax { queries, boost } => {
                let mut best: Option<u64> = None;
                let mut i: usize = 0;
                proof {
                    assert(queries@.subrange(0, 0) =~= Seq::<Query>::empty());
                }
                while i < queries.len()
                    invariant
                        i <= queries@.len(),
                        best == spec_max_rank(queries@.subrange(0, i as int), *doc),
                    decreases queries@.len() - i,
                {
                    proof {
                        assert(queries@.subrange(0, (i + 1) as int).drop_last()
                            =~= queries@.subrange(0, i as int));
                        assert(queries@.subrange(0, (i + 1) as int).last() == queries@[i as int]);
                    }
                    match queries[i].rank(doc) {
                        Some(s) => {
                            best = match best {
                                Some(m) => if s > m {
                                    Some(s)
                                } else {
                                    Some(m)
                                },
                                None => Some(s),
                            };
                        },
                        None => {},
                    }
                    i = i + 1;
                }
                proof {
                    assert(queries@.subrange(0, queries@.len() as int) =~= queries@);
                }
                match best {
                    Some(m) => Some(mul_boost(m, *boost)),
                    None => None,
                }
            },
            Query::BoostScore { query, boost } => match query.rank(doc) {
                Some(s) => Some(mul_boost(s, *boost)),
                None => None,
            },
            Query::Conjunction { queries } => {
                let mut acc: u64 = 0;
                let mut i: usize = 0;
                proof {
                    assert(queries@.subrange(0, 0) =~= Seq::<Query>::empty());
                }
                while i < queries.len()
                    invariant
                        i <= queries@.len(),
                        Some(acc) == spec_sum_must(queries@.subrange(0, i as int), *doc),
                    decreases queries@.len() - i,
                {
                    proof {
                        assert(queries@.subrange(0, (i + 1) as int).drop_last()
                            =~= queries@.subrange(0, i as int));
                        assert(queries@.subrange(0, (i + 1) as int).last() == queries@[i as int]);
                    }
                    match queries[i].rank(doc) {
                        Some(s) => {
                            acc = add_scores(acc, s);
                        },
                        None => {
                            proof {
                                lemma_sum_must_none(queries@, *doc, i as int);
                            }
                            return None;
                        },
                    }
                    i = i + 1;
                }
                proof {
                    assert(queries@.subrange(0, queries@.len() as int) =~= queries@);
                }
                if queries.len() == 0 {
                    Some(SCALE)
                } else {
                    Some(div_count(acc, queries.len() as u128))
                }
            },
        }
    }

    /// Boolean membership: does this query match the document at all?
    pub fn matches(&self, doc: &Document) -> (r: bool)
        ensures
            r == spec_query_matches(*self, *doc),
    {
        self.rank(doc).is_some()
    }
}

/// `MatchAll` matches every document, scoring its boost; `MatchNone`
/// matches none.
pub proof fn lemma_match_all_match_none(boost: u64, doc: Document)
    ensures
        rank_spec(Query::MatchAll { boost }, doc) == Some(boost),
        rank_spec(Query::MatchNone, doc) is None,
{
}

/// A term clause over a plain string field scores its boost exactly
/// when the matcher accepts the field value.
pub proof fn lemma_term_clause_on_string(
    field: String,
    t: String,
    matcher: crate::term::TermMatcher,
    boost: u64,
    doc: Document,
    v: String,
)
    requires
        field_lookup(doc.fields@, field@) == Some(Value::String(v)),
    ensures
        rank_spec(Query::MatchTerm { field, term: Term::String(t), matcher, boost }, doc) == if spec_matches(
            matcher,
            v@,
            t@,
        ) {
            Some(boost)
        } else {
            None
        },
{
}

/// A term clause over a token-vector field scores
/// `matched-token-count * boost`; zero matched tokens is no match.
pub proof fn lemma_term_clause_on_ts_vector(
    field: String,
    t: String,
    matcher: crate::term::TermMatcher,
    boost: u64,
    doc: Document,
    tokens: Vec<String>,
)
    requires
        field_lookup(doc.fields@, field@) == Some(Value::TSVector(tokens)),
    ensures
        ({
            let c = spec_count_token_matches(tokens@, matcher, t@);
            &&& rank_spec(Query::MatchTerm { field, term: Term::String(t), matcher, boost }, doc)
                == (if c > 0 {
                Some(spec_count_times_boost(c, boost))
            } else {
                None
            })
            &&& (c > 0 && c * boost <= u64::MAX ==> rank_spec(
                Query::MatchTerm { field, term: Term::String(t), matcher, boost },
                doc,
            ) == Some((c * boost) as u64))
        }),
{
}

/// Any matching `must_not` clause rejects the whole boolean clause,
/// independently of every other clause.
pub proof fn lemma_bool_must_not_rejects(
    must: Vec<Query>,
    must_not: Vec<Query>,
    should: Vec<Query>,
    filter: Vec<Query>,
    minimum_should_match: u64,
    boost: u64,
    doc: Document,
    j: int,
)
    requires
        0 <= j < must_not@.len(),
        spec_query_matches(must_not@[j], doc),
    ensures
        rank_spec(
            Query::Bool { must, must_not, should, filter, minimum_should_match, boost },
            doc,
        ) is None,
{
    assert(spec_any_matches(must_not@, doc));
}

/// Any non-matching `filter` clause rejects the whole boolean clause.
pub proof fn lemma_bool_filter_rejects(
    must: Vec<Query>,
    must_not: Vec<Query>,
    should: Vec<Query>,
    filter: Vec<Query>,
    minimum_should_match: u64,
    boost: u64,
    doc: Document,
    j: int,
)
    requires
        0 <= j < filter@.len(),
        !spec_query_matches(filter@[j], doc),
    ensures
        rank_spec(
            Query::Bool { must, must_not, should, filter, minimum_should_match, boost },
            doc,
        ) is None,
{
    assert(!spec_all_match(filter@, doc));
}

/// Any non-matching `must` clause rejects the whole boolean clause.
pub proof fn lemma_bool_must_rejects(
    must: Vec<Query>,
    must_not: Vec<Query>,
    should: Vec<Query>,
    filter: Vec<Query>,
    minimum_should_match: u64,
    boost: u64,
    doc: Document,
    j: int,
)
    requires
        0 <= j < must@.len(),
        !spec_query_matches(must@[j], doc),
    ensures
        rank_spec(
            Query::Bool { must, must_not, should, filter, minimum_should_match, boost },
            doc,
        ) is None,
{
    lemma_sum_must_none(must@, doc, j);
}

/// Fewer matching `should` clauses than `minimum_should_match` rejects
/// the whole boolean clause, even when every `must` clause matched.
pub proof fn lemma_bool_minimum_should_match_rejects(
    must: Vec<Query>,
    must_not: Vec<Query>,
    should: Vec<Query>,
    filter: Vec<Query>,
    minimum_should_match: u64,
    boost: u64,
    doc: Document,
)
    requires
        spec_should_count(should@, doc) < minimum_should_match,
    ensures
        rank_spec(
            Query::Bool { must, must_not, should, filter, minimum_should_match, boost },
            doc,
        ) is None,
{
}

/// A boolean clause with no `must` and no `should` clauses, none of
/// whose `must_not` clauses match, all of whose `filter` clauses match,
/// and with `minimum_should_match` zero, is a vacuous match scoring
/// exactly its boost.
pub proof fn lemma_bool_empty_is_vacuous_match(
    must: Vec<Query>,
    must_not: Vec<Query>,
    should: Vec<Query>,
    filter: Vec<Query>,
    boost: u64,
    doc: Document,
)
    requires
        must@.len() == 0,
        should@.len() == 0,
        !spec_any_matches(must_not@, doc),
        spec_all_match(filter@, doc),
    ensures
        rank_spec(
            Query::Bool { must, must_not, should, filter, minimum_should_match: 0, boost },
            doc,
        ) == Some(boost),
{
    assert(spec_sum_must(must@, doc) == Some(0u64));
    assert(spec_should_sum(should@, doc, 0u64) == 0u64);
    assert(spec_should_count(should@, doc) == 0);
}

/// `spec_max_rank` is `None` exactly when nothing matches, and is
/// otherwise the score of some matching query, at least as large as
/// every matching score.
pub proof fn lemma_max_rank_is_max(qs: Seq<Query>, doc: Document)
    ensures
        (spec_max_rank(qs, doc) is None) == !spec_any_matches(qs, doc),
        spec_max_rank(qs, doc) is Some ==> exists|j: int|
            0 <= j < qs.len() && rank_spec(qs[j], doc) == Some(spec_max_rank(qs, doc).unwrap()),
        spec_max_rank(qs, doc) is Some ==> forall|j: int|
            0 <= j < qs.len() && rank_spec(qs[j], doc) is Some ==> rank_spec(qs[j], doc).unwrap()
                <= spec_max_rank(qs, doc).unwrap(),
    decreases qs.len(),
{
    if qs.len() == 0 {
    } else {
        lemma_max_rank_is_max(qs.drop_last(), doc);
        assert(forall|j: int| 0 <= j < qs.len() - 1 ==> qs.drop_last()[j] == qs[j]);
        if spec_max_rank(qs, doc) is Some {
            let m = spec_max_rank(qs, doc).unwrap();
            if rank_spec(qs.last(), doc) == Some(m) {
                assert(rank_spec(qs[qs.len() - 1], doc) == Some(m));
            } else {
                let j0 = choose|j: int|
                    0 <= j < qs.drop_last().len() && rank_spec(qs.drop_last()[j], doc) == Some(
                        spec_max_rank(qs.drop_last(), doc).unwrap(),
                    );
                assert(rank_spec(qs[j0], doc) == Some(m));
            }
        }
        if spec_max_rank(qs, doc) is None {
            assert forall|j: int| 0 <= j < qs.len() implies rank_spec(qs[j], doc) is None by {
                if j < qs.len() - 1 {
                    assert(qs.drop_last()[j] == qs[j]);
                }
            }
        } else if !spec_any_matches(qs, doc) {
            if rank_spec(qs.last(), doc) is Some {
                assert(spec_any_matches(qs, doc));
            } else {
                assert(spec_any_matches(qs.drop_last(), doc));
                let j0 = choose|j: int|
                    0 <= j < qs.drop_last().len() && rank_spec(qs.drop_last()[j], doc) is Some;
                assert(rank_spec(qs[j0], doc) is Some);
                assert(spec_any_matches(qs, doc));
            }
        }
    }
}

/// A disjunction-max clause is no match exactly when no sub-query
/// matches, and otherwise scores `boost * max(matching sub-scores)`.
pub proof fn lemma_disjunction_max_scoring(queries: Vec<Query>, boost: u64, doc: Document)
    ensures
        !spec_any_matches(queries@, doc) ==> rank_spec(
            Query::DisjunctionMax { queries, boost },
            doc,
        ) is None,
        spec_any_matches(queries@, doc) ==> rank_spec(Query::DisjunctionMax { queries, boost }, doc)
            == Some(spec_mul_boost(spec_max_rank(queries@, doc).unwrap(), boost)),
{
    lemma_max_rank_is_max(queries@, doc);
}

/// A conjunction is sugar for a boolean clause with only `must`
/// populated and boost 1.0: both rank identically on every document.
pub proof fn lemma_conjunction_is_bool_must(
    queries: Vec<Query>,
    no_must_not: Vec<Query>,
    no_should: Vec<Query>,
    no_filter: Vec<Query>,
    doc: Document,
)
    requires
        no_must_not@.len() == 0,
        no_should@.len() == 0,
        no_filter@.len() == 0,
    ensures
        rank_spec(Query::Conjunction { queries }, doc) == rank_spec(
            Query::Bool {
                must: queries,
                must_not: no_must_not,
                should: no_should,
                filter: no_filter,
                minimum_should_match: 0,
                boost: SCALE,
            },
            doc,
        ),
{
    assert(!spec_any_matches(no_must_not@, doc));
    assert(spec_all_match(no_filter@, doc));
    match spec_sum_must(queries@, doc) {
        None => {},
        Some(total) => {
            assert(spec_should_sum(no_should@, doc, total) == total);
            assert(spec_should_count(no_should@, doc) == 0);
            if queries@.len() > 0 {
                assert(total as int * SCALE as int / (SCALE as int) == total as int)
                    by (nonlinear_arith);
                assert(spec_mul_boost(total, SCALE) == total);
            }
        },
    }
}

} // verus!
