//! Turn a directory tree into a single portable ZIP archive.
//!
//! The crate is split into a verified core and a handful of trusted
//! wrappers around the `zip` crate.  The core decides, for every entry of
//! a source tree, whether it becomes an archive member and under which
//! name, enforces the optional size budget, and plans collision-free
//! output paths.

pub mod builder;
pub mod entry;
pub mod laws;
pub mod names;
pub mod plan;
pub mod planner;
pub mod text;
pub mod zipio;

pub use builder::ArchiveError;
pub use builder::ArchiveOutput;
pub use builder::build_archive;
pub use entry::EntryKind;
pub use entry::RawEntry;
pub use names::candidate_file_name;
pub use names::sanitize_filename;
pub use plan::BuildConfig;
pub use planner::plan_output_path;
pub use text::u64_to_string;
