//! Columnar analytics over Parquet files: the rules by which a query engine and
//! its command line work, each function with a contract that Verus proves.
//!
//! The SQL parser, the planner, the engine that runs a planned program and the
//! Parquet reader are not part of the library. It says what they are asked, and
//! what becomes of their answers:
//!
//! - [`query`]: the loaded tables, addressed by name.
//! - [`select`]: what matters of a parsed `SELECT`.
//! - [`execution`], [`explain`]: a query's run and its `EXPLAIN`, step by step.
//! - [`columns`], [`batch`], [`scan`]: which columns of a file a program reads,
//!   and how row groups become batches of values.
//! - [`plan`], [`listing`], [`stream_output`], [`value`]: what is printed.
//! - [`handler`], [`cli`]: the interactive session and the command line.
//! - [`error`], [`text`]: failures and their messages; characters.

pub mod batch;
pub mod cli;
pub mod columns;
pub mod error;
pub mod execution;
pub mod explain;
pub mod handler;
pub mod listing;
pub mod plan;
pub mod query;
pub mod scan;
pub mod select;
pub mod stream_output;
pub mod text;
pub mod value;
