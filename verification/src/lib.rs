//! A directory content search library: walk-filtering rules, per-line
//! pattern scanning, preview truncation, and last-match-per-file result
//! aggregation, all with machine-checked contracts. Directory traversal
//! and console/file output are left to a thin unverified front end.

pub mod config;
pub mod filter;
pub mod lines;
pub mod numfmt;
pub mod output;
pub mod path;
pub mod pattern;
pub mod preview;
pub mod results;
pub mod scanner;
pub mod traverse;
pub mod walk;
