//! Per-author contribution statistics for a git repository.
//!
//! The library builds the shell commands that query git, parses what git
//! prints, orders the per-author records and renders the report. Running the
//! commands is left to the caller: a [`pipeline::Pipeline`] hands out each
//! command as a step and takes back how it ended.
pub mod directory;
pub mod error;
pub mod escape;
pub mod metrics;
pub mod order;
pub mod outcome;
pub mod pipeline;
pub mod report;
pub mod text;
