//! The analyzer registry: named catalogs composing tokenizer and
//! filter specifications into analyzers, with a three-tier
//! default-resolution policy.

use vstd::prelude::*;

use crate::assoc::{assoc_get, assoc_insert, assoc_lookup, assoc_wf};

verus! {

/// A tokenizer, named by specification only; the splitting itself is
/// an external collaborator's concern.
#[derive(Debug, Clone, Copy, PartialEq, Eq)]
pub enum TokenizerSpec {
    Standard,
}

/// A token filter, named by specification only.
#[derive(Debug, Clone, Copy, PartialEq, Eq)]
pub enum FilterSpec {
    Lowercase,
    ASCIIFolding,
}

/// An analyzer: one tokenizer followed by an ordered filter chain.
#[derive(Debug, PartialEq)]
pub struct AnalyzerSpec {
    pub tokenizer: TokenizerSpec,
    pub filters: Vec<FilterSpec>,
}

/// Same analyzer content: same tokenizer, same filter chain.
pub open spec fn analyzer_like(a: AnalyzerSpec, b: AnalyzerSpec) -> bool {
    a.tokenizer == b.tokenizer && a.filters@ == b.filters@
}

/// The hard-coded built-in analyzer: the standard tokenizer followed
/// by the lowercase and then the ascii-folding filter.
pub open spec fn spec_is_standard_analyzer(a: AnalyzerSpec) -> bool {
    a.tokenizer == TokenizerSpec::Standard && a.filters@ =~= seq![
        FilterSpec::Lowercase,
        FilterSpec::ASCIIFolding,
    ]
}

/// Three independent name-to-spec catalogs, seeded with the built-ins
/// at construction and mutated only through explicit insert calls.
#[derive(Debug)]
pub struct AnalyzerRegistry {
    pub analyzers: Vec<(String, AnalyzerSpec)>,
    pub tokenizers: Vec<(String, TokenizerSpec)>,
    pub filters: Vec<(String, FilterSpec)>,
}

impl AnalyzerRegistry {
    /// Each catalog is a mapping: names are distinct.
    pub open spec fn wf(&self) -> bool {
        assoc_wf(self.analyzers@) && assoc_wf(self.tokenizers@) && assoc_wf(self.filters@)
    }

    /// What the index-time or search-time default resolves to, given
    /// the phase's explicit default name: the three-tier fallback.
    pub open spec fn spec_default_for(&self, phase_name: Seq<char>, r: AnalyzerSpec) -> bool {
        match assoc_lookup(self.analyzers@, phase_name) {
            Some(a) => analyzer_like(r, a),
            None => match assoc_lookup(self.analyzers@, "default"@) {
                Some(a) => analyzer_like(r, a),
                None => spec_is_standard_analyzer(r),
            },
        }
    }

    /// A registry holding exactly the built-ins: the `standard`
    /// tokenizer; the `lowercase` and `asciifolding` filters; and the
    /// `standard` analyzer composed of them.
    pub fn new() -> (r: AnalyzerRegistry)
        ensures
            r.wf(),
            r.tokenizers@.len() == 1,
            assoc_lookup(r.tokenizers@, "standard"@) == Some(TokenizerSpec::Standard),
            r.filters@.len() == 2,
            assoc_lookup(r.filters@, "asciifolding"@) == Some(FilterSpec::ASCIIFolding),
            assoc_lookup(r.filters@, "lowercase"@) == Some(FilterSpec::Lowercase),
            r.analyzers@.len() == 1,
            ({
                &&& assoc_lookup(r.analyzers@, "standard"@) is Some
                &&& spec_is_standard_analyzer(assoc_lookup(r.analyzers@, "standard"@).unwrap())
            }),
            forall|name: Seq<char>|
                name != "standard"@ ==> assoc_lookup(r.analyzers@, name) is None,
    {
        let mut registry = AnalyzerRegistry {
            analyzers: Vec::new(),
            tokenizers: Vec::new(),
            filters: Vec::new(),
        };
        proof {
            reveal_strlit("standard");
            reveal_strlit("asciifolding");
            reveal_strlit("lowercase");
            assert("lowercase"@.len() != "asciifolding"@.len());
            assert("lowercase"@ != "asciifolding"@);
        }
        registry.insert_tokenizer("standard".to_owned(), TokenizerSpec::Standard);
        registry.insert_filter("asciifolding".to_owned(), FilterSpec::ASCIIFolding);
        registry.insert_filter("lowercase".to_owned(), FilterSpec::Lowercase);
        let mut standard_filters: Vec<FilterSpec> = Vec::new();
        standard_filters.push(FilterSpec::Lowercase);
        standard_filters.push(FilterSpec::ASCIIFolding);
        registry.insert_analyzer(
            "standard".to_owned(),
            AnalyzerSpec { tokenizer: TokenizerSpec::Standard, filters: standard_filters },
        );
        proof {
            assert forall|name: Seq<char>| name != "standard"@ implies assoc_lookup(
                registry.analyzers@,
                name,
            ) is None by {
                assert(assoc_lookup(registry.analyzers@, name) == assoc_lookup(
                    Seq::<(String, AnalyzerSpec)>::empty(),
                    name,
                ));
            }
        }
        registry
    }

    /// Register an analyzer, returning any replaced entry.
    pub fn insert_analyzer(&mut self, name: String, analyzer: AnalyzerSpec) -> (r: Option<
        AnalyzerSpec,
    >)
        requires
            old(self).wf(),
        ensures
            final(self).wf(),
            r == assoc_lookup(old(self).analyzers@, name@),
            assoc_lookup(final(self).analyzers@, name@) == Some(analyzer),
            forall|other: Seq<char>|
                other != name@ ==> assoc_lookup(final(self).analyzers@, other) == assoc_lookup(
                    old(self).analyzers@,
                    other,
                ),
            final(self).analyzers@.len() == old(self).analyzers@.len() + if r is Some {
                0int
            } else {
                1int
            },
            final(self).tokenizers == old(self).tokenizers,
            final(self).filters == old(self).filters,
    {
        assoc_insert(&mut self.analyzers, name, analyzer)
    }

    /// Look a registered analyzer up by name.
    pub fn get_analyzer(&self, name: &str) -> (r: Option<&AnalyzerSpec>)
        ensures
            match r {
                Some(a) => assoc_lookup(self.analyzers@, name@) == Some(*a),
                None => assoc_lookup(self.analyzers@, name@) is None,
            },
    {
        assoc_get(&self.analyzers, name)
    }

    /// Register a tokenizer, returning any replaced entry.
    pub fn insert_tokenizer(&mut self, name: String, tokenizer: TokenizerSpec) -> (r: Option<
        TokenizerSpec,
    >)
        requires
            old(self).wf(),
        ensures
            final(self).wf(),
            r == assoc_lookup(old(self).tokenizers@, name@),
            assoc_lookup(final(self).tokenizers@, name@) == Some(tokenizer),
            forall|other: Seq<char>|
                other != name@ ==> assoc_lookup(final(self).tokenizers@, other) == assoc_lookup(
                    old(self).tokenizers@,
                    other,
                ),
            final(self).tokenizers@.len() == old(self).tokenizers@.len() + if r is Some {
                0int
            } else {
                1int
            },
            final(self).analyzers == old(self).analyzers,
            final(self).filters == old(self).filters,
    {
        assoc_insert(&mut self.tokenizers, name, tokenizer)
    }

    /// The tokenizer catalog.
    pub fn tokenizers(&self) -> (r: &Vec<(String, TokenizerSpec)>)
        ensures
            r == &self.tokenizers,
    {
        &self.tokenizers
    }

    /// Register a filter, returning any replaced entry.
    pub fn insert_filter(&mut self, name: String, filter: FilterSpec) -> (r: Option<FilterSpec>)
        requires
            old(self).wf(),
        ensures
            final(self).wf(),
            r == assoc_lookup(old(self).filters@, name@),
            assoc_lookup(final(self).filters@, name@) == Some(filter),
            forall|other: Seq<char>|
                other != name@ ==> assoc_lookup(final(self).filters@, other) == assoc_lookup(
                    old(self).filters@,
                    other,
                ),
            final(self).filters@.len() == old(self).filters@.len() + if r is Some {
                0int
            } else {
                1int
            },
            final(self).analyzers == old(self).analyzers,
            final(self).tokenizers == old(self).tokenizers,
    {
        assoc_insert(&mut self.filters, name, filter)
    }

    /// The filter catalog.
    pub fn filters(&self) -> (r: &Vec<(String, FilterSpec)>)
        ensures
            r == &self.filters,
    {
        &self.filters
    }

    /// Tier two and three of default resolution: an explicitly
    /// registered `default` analyzer, else the hard-coded standard one.
    fn get_default_analyzer(&self) -> (r: AnalyzerSpec)
        ensures
            match assoc_lookup(self.analyzers@, "default"@) {
                Some(a) => analyzer_like(r, a),
                None => spec_is_standard_analyzer(r),
            },
    {
        match self.get_analyzer("default") {
            Some(a) => clone_analyzer(a),
            None => standard_analyzer(),
        }
    }

    /// The analyzer used at index time: an explicitly registered
    /// `default_index` analyzer, else the `default` analyzer, else the
    /// hard-coded `standard` analyzer.
    pub fn get_default_index_analyzer(&self) -> (r: AnalyzerSpec)
        ensures
            self.spec_default_for("default_index"@, r),
    {
        match self.get_analyzer("default_index") {
            Some(a) => clone_analyzer(a),
            None => self.get_default_analyzer(),
        }
    }

    /// The analyzer used at search time: an explicitly registered
    /// `default_search` analyzer, else the `default` analyzer, else
    /// the hard-coded `standard` analyzer.
    pub fn get_default_search_analyzer(&self) -> (r: AnalyzerSpec)
        ensures
            self.spec_default_for("default_search"@, r),
    {
        match self.get_analyzer("default_search") {
            Some(a) => clone_analyzer(a),
            None => self.get_default_analyzer(),
        }
    }
}

/// Copy an analyzer specification.
fn clone_analyzer(a: &AnalyzerSpec) -> (r: AnalyzerSpec)
    ensures
        analyzer_like(r, *a),
{
    let mut filters: Vec<FilterSpec> = Vec::new();
    let mut i: usize = 0;
    while i < a.filters.len()
        invariant
            i <= a.filters@.len(),
            filters@ == a.filters@.subrange(0, i as int),
        decreases a.filters@.len() - i,
    {
        filters.push(a.filters[i]);
        proof {
            assert(filters@ =~= a.filters@.subrange(0, (i + 1) as int));
        }
        i = i + 1;
    }
    proof {
        assert(a.filters@.subrange(0, a.filters@.len() as int) =~= a.filters@);
    }
    AnalyzerSpec { tokenizer: a.tokenizer, filters }
}

/// Build the hard-coded standard analyzer.
fn standard_analyzer() -> (r: AnalyzerSpec)
    ensures
        spec_is_standard_analyzer(r),
{
    let mut filters: Vec<FilterSpec> = Vec::new();
    filters.push(FilterSpec::Lowercase);
    filters.push(FilterSpec::ASCIIFolding);
    AnalyzerSpec { tokenizer: TokenizerSpec::Standard, filters }
}

} // verus!
