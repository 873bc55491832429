//! A small line-oriented text search: pick out the lines of a text that
//! contain a query, either verbatim or after lowercase folding.

mod config;
mod search;
mod text;

pub use config::{Config, USAGE};
pub use search::{
    insensitive_matches, keep_marked, kept, lemma_fold_equal_queries_match_alike, search,
    search_case_insensitive, search_with_config, sensitive_matches, NO_MATCH,
};
pub use text::{has_substring, line_views, lower_of, split_lines, split_newlines, strip_cr};
