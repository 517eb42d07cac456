use rusticsearch::analysis::{AnalyzerRegistry, AnalyzerSpec, FilterSpec, TokenizerSpec};

fn s(text: &str) -> String {
    text.to_string()
}

fn standard() -> AnalyzerSpec {
    AnalyzerSpec {
        tokenizer: TokenizerSpec::Standard,
        filters: vec![FilterSpec::Lowercase, FilterSpec::ASCIIFolding],
    }
}

fn custom() -> AnalyzerSpec {
    AnalyzerSpec { tokenizer: TokenizerSpec::Standard, filters: vec![FilterSpec::Lowercase] }
}

#[test]
fn test_registry_seeds_builtins() {
    let registry = AnalyzerRegistry::new();
    assert_eq!(registry.tokenizers().len(), 1);
    assert_eq!(registry.filters().len(), 2);
    assert_eq!(registry.get_analyzer("standard"), Some(&standard()));
    assert_eq!(registry.get_analyzer("default"), None);
}

#[test]
fn test_default_resolution_falls_back_to_standard() {
    // with no analyzers registered beyond the built-ins, both phases
    // resolve to the hard-coded standard analyzer
    let registry = AnalyzerRegistry::new();
    assert_eq!(registry.get_default_index_analyzer(), standard());
    assert_eq!(registry.get_default_search_analyzer(), standard());
}

#[test]
fn test_default_resolution_prefers_registered_default() {
    let mut registry = AnalyzerRegistry::new();
    registry.insert_analyzer(s("default"), custom());
    assert_eq!(registry.get_default_index_analyzer(), custom());
    assert_eq!(registry.get_default_search_analyzer(), custom());
}

#[test]
fn test_default_resolution_prefers_phase_specific_default() {
    let mut registry = AnalyzerRegistry::new();
    registry.insert_analyzer(s("default"), custom());
    let index_only = || AnalyzerSpec { tokenizer: TokenizerSpec::Standard, filters: vec![] };
    registry.insert_analyzer(s("default_index"), index_only());
    assert_eq!(registry.get_default_index_analyzer(), index_only());
    // the search phase falls through to the plain default
    assert_eq!(registry.get_default_search_analyzer(), custom());
}

#[test]
fn test_insert_returns_replaced_entry() {
    let mut registry = AnalyzerRegistry::new();
    assert_eq!(registry.insert_tokenizer(s("ws"), TokenizerSpec::Standard), None);
    assert_eq!(
        registry.insert_tokenizer(s("ws"), TokenizerSpec::Standard),
        Some(TokenizerSpec::Standard)
    );
    assert_eq!(registry.insert_filter(s("fold"), FilterSpec::ASCIIFolding), None);
    assert_eq!(
        registry.insert_filter(s("fold"), FilterSpec::Lowercase),
        Some(FilterSpec::ASCIIFolding)
    );
    assert_eq!(registry.insert_analyzer(s("custom"), custom()), None);
    assert_eq!(registry.insert_analyzer(s("custom"), standard()), Some(custom()));
    assert_eq!(registry.get_analyzer("custom"), Some(&standard()));
}
