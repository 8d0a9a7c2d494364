//! A row-type recognition engine for tabular spreadsheet data together with a
//! bounded-concurrency batch processing pipeline.
//!
//! Rows are classified into semantic categories by composable, priority-ordered
//! recognition rules over cell styling, text content and merge geometry. The
//! pipeline applies a caller-supplied per-file transformation across a set of
//! input files while tracking progress and honouring cooperative cancellation.

pub mod assets;
pub mod config;
pub mod error;
pub mod extract;
pub mod history;
pub mod identification_error;
pub mod identifier;
pub mod logger;
pub mod models;
pub mod pipeline;
pub mod processor;
pub mod processor_list;
pub mod profile;
pub mod progress;
pub mod progress_view;
pub mod rules;
pub mod selector;
pub mod state;
pub mod summary;
pub mod text;
pub mod theme;
