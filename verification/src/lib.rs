//! Selection-aggregation and token-accounting engine for an interactive
//! file-tree browser, together with a cancellable background-execution
//! coordinator.
//!
//! The tree of scanned files lives in a flat arena ([`tree::FileTree`]);
//! selection operations, relevance aggregation, partial token totals and
//! run-identifier bookkeeping are all verified against mathematical models
//! of that arena.

pub mod types;
pub mod numfmt;
pub mod tree;
pub mod selection;
pub mod accounting;
pub mod config;
pub mod backends;
pub mod tokenizer;
pub mod app;
pub mod ui;
