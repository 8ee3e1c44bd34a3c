//! Curation of a source-code corpus: manifest parsing, the decisions of the
//! archive fetcher, extraction of source files into records, and exact and
//! near-duplicate removal over those records.

pub mod chars;
pub mod classify;
pub mod config;
pub mod dedup;
pub mod digest;
pub mod extract;
pub mod fetch;
pub mod fuzzy;
pub mod record;
pub mod source;
pub mod text;
pub mod union_find;
