//! Query-evaluation core of a full-text search engine.
//!
//! Structured search requests are represented as a recursive [`query::Query`]
//! tree, scored against documents by the ranking engine, and resolved against
//! an inverted index through the capability traits in [`store`].  Relevance
//! scores are exact fixed-point numbers (thousandths), so every scoring rule
//! is stated and machine-checked as a contract.

pub mod analysis;
pub mod assoc;
pub mod json;
pub mod memory;
pub mod parser;
pub mod query;
pub mod ranking;
pub mod score;
pub mod store;
pub mod strings;
pub mod term;
pub mod value;
