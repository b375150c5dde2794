//! Oracle: a library that inspects Rust source code and project metadata.
//!
//! The analyzer walks a parsed syntax tree and produces a flat, classified,
//! path-qualified catalog of declarations; the dependency engine builds a
//! directed graph of package dependencies and answers traversal queries.

pub mod analyzer;
pub mod config;
pub mod crates_io;
pub mod error;
pub mod strings;
pub mod ui;
pub mod utils;
