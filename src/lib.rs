//! A file finder: classify the entries of a directory walk and keep those
//! that pass the configured type and name filters.

mod config;
mod entry;
mod laws;
mod pattern;
mod pipeline;

pub use config::{
    entry_type_of, names_valid, parse_entry_type, roots_of, texts, types_valid, Config, ConfigError,
    ConfigView,
};
pub use entry::{classify, kind_of, EntryType, TraversalEntry};
pub use pattern::{regex_compiles, regex_is_match, NamePattern};
pub use pipeline::{
    blocks_of, entry_paths, failures, included, join_lines, joined, name_ok, selected, type_ok,
    RootReport, WalkItem,
};
pub use laws::{
    lemma_blocks_per_root, lemma_failure_skipped, lemma_name_filter, lemma_no_filters_keeps_all,
    lemma_same_walk_same_output, lemma_selected_append, lemma_type_filter,
};
