//! A line-oriented literal search library: pattern compilation, per-line
//! selection, highlighting and the three output modes of a grep-like tool.

mod config;
mod text;
mod matcher;
mod highlight;
mod scan;

pub use config::{ColorMode, ConfigError, OutputMode, SearchSpec, parse_color, should_use_color};
pub use highlight::{highlight, is_match};
pub use matcher::{CompileError, Matcher, get_regex};
pub use scan::{print_match, process_file, show_filenames, split_lines};
