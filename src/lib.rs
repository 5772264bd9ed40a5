//! Discovery and selective extraction of entries in 7z archives.
//!
//! The library holds the decisions of the pipeline: it parses the archive
//! tool's listing report into entry names, selects names with a regular
//! expression, plans and spells the tool's invocations, and transforms the
//! bytes of extracted files. Running the tool, walking the file system and
//! touching files is left to the caller.

mod invert;
mod command;
mod filter;
mod listing;
mod plan;

pub use command::{
    ARCHIVE_PROGRAM, Extraction, extract_args, extract_args_spec, list_args, list_args_spec,
    password_args,
};
pub use filter::{
    ConfigError, EntryFilter, SelectionCriterion, escaped, is_meta, lemma_term_as_escaped_pattern,
    regex_compiles, regex_matches, term_pattern, wildcard,
};
pub use invert::{inverted, invert_bytes, invert_in_place, lemma_invert_involution, widened_mode};
pub use listing::{
    chars_of, is_row, lemma_rows_and_skipped, lines_of, listing_names, parse_listing, parse_row,
    row_name, try_to_tokenize_lines, views,
};
pub use plan::{
    ArchivePlan, ExtractionConfig, archive_search_pattern, base_name, lemma_whole_archive_once,
    plan_archive, plan_extractions, plan_listing, plan_spec, single_output_path, targets,
    tree_pattern,
};
