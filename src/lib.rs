//! A developer-console command engine: resolves typed command lines against a
//! registry of named entries, runs the matching operation and renders the
//! outcome as colored text spans.

mod number;
mod result;
mod node;
mod text;
mod registry;
mod output;
mod window;
mod laws;

pub use number::{int_text, is_int_text, signed_value};
pub use result::{error_message, is_ok_with, CmdType, ConsoleError, ConsoleResult};
pub use node::{action_details, details_text, first_newline, node_kind, same_kind, value_text, EntryView, Node, NodeExt, NodeView, Property, Value, ValueView};
pub use text::{split_spaces, split_spaces_of, views_of, chars_of, contains, is_prefix, occurs_in, same_text, starts_with};
pub use registry::{lemma_lookup_found, FilterView, accepts, filter_accepts, filter_matches, help_text, kind_at, lemma_search_concat, lookup, parsed, prop_index, props_consistent, reset_entry, search_text, with_value, Entry, Invocation, PathFilter, Registry};
pub use output::{cyan_color, red_color, white_color, joined, result_span, trimmed_end, ColoredConsole, Rgba, TextSpan};
pub use window::{init, init_with_config, builtin_entries, find_span, help_span, listing_span, reset_entries, reset_span, ConsoleConfig, ConsoleWindow};
pub use laws::{lemma_find_empty_has_results, lemma_reset_all_defaults, lemma_reset_then_read, lemma_set_then_read, lemma_write_read_round_trip};
