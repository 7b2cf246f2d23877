//! Accounting and pruning for a cargo-style download cache.
//!
//! The library measures cache directories, retains the newest versions of
//! extracted package sources, resolves user-named cache categories to
//! concrete paths, and plans deletions.  Reading the disk goes through a
//! small set of trusted wrappers; deletions are handed back to the caller
//! as explicit commands, so every policy decision in here is verified.

pub mod human;
pub mod menu;
pub mod output;
pub mod paths;
pub mod prune;
pub mod report;
pub mod remove;
pub mod select;
pub mod stats;
pub mod text;
