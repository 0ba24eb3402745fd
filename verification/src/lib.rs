//! An architecture linter for PHP projects following a layered
//! (UI / service / repository) convention.
//!
//! The library scans file contents line by line against a fixed set of
//! rules and reports structured violations.  Matching is purely
//! textual: each rule is a predicate on a line's characters, specified
//! exactly by spec functions and proved of the executable checkers.

pub mod rules;
pub mod runner;
pub mod text;
