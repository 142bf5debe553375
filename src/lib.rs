//! Line-oriented text diffing: loading and classifying inputs, normalising
//! them, computing an edit script and grouping it into context hunks.
pub mod diff;
pub mod engine;
pub mod laws;
pub mod loader;
pub mod text;
pub mod types;

pub use diff::{diff_paths, diff_text, ReadOutcome};
pub use engine::build_hunks;
pub use loader::{load_bytes, load_string_as_text, LoadedFile};
pub use text::normalize;
pub use types::{
    Algorithm, DiffError, DiffOptions, DiffPathsArgs, DiffResult, DiffTextArgs, FileKind,
    FileMeta, Hunk, Line, LineOp,
};
