//! File search engine core: scanning rules, index document construction and
//! upsert planning, query post-filtering, duplicate grouping, worker sizing and
//! run-state tracking, each stated as contracts over mathematical models.

pub mod config;
pub mod dedup;
pub mod diagnostics;
pub mod indexer;
pub mod pipeline;
pub mod run_state;
pub mod scanner;
pub mod search;
pub mod text;
pub mod writer;
