//! Help-tag resolution: resolve a short user-typed query (`^N`, `wildmenu`,
//! `'cd'`) to the best-matching entry of a tab-separated help-tag database.
//!
//! The engine derives three search patterns from the query (a literal one, a
//! case-insensitive one and a wildcard one), scans every database line up to
//! the first empty line, scores each line that one of the patterns matches,
//! and returns the candidate with the minimum score.

pub mod chars;
pub mod help;
pub mod laws;
pub mod matching;
pub mod pattern;
pub mod rewrite;
pub mod score;
pub mod tag_search;
pub mod text;
