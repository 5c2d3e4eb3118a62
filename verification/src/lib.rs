//! A line-oriented regular-expression search engine.
//!
//! The crate decides which lines of a text are reported for a pattern, how a
//! reported line is decorated, how file content is classified as text or
//! binary, and in which order the paths of a run are visited. Reading files,
//! walking directories and printing are left to the caller.

pub mod encoding;
pub mod engine;
pub mod lines;
pub mod markup;
pub mod matchers;
pub mod options;
pub mod scan;
pub mod search;
pub mod traversal;
pub mod walk;

pub use matchers::{pattern_source, CompileError, Matchers};
pub use options::{Options, Source};
pub use scan::{search_content, search_file, FileRead, FileReport};
pub use search::{report_line, search_input, search_text};
pub use walk::{Pending, StatFailure, Step, Walk, FOUND_FILE_COUNT};
