//! Fingerprints of workspace file sets.
//!
//! Given a glob pattern anchored at the workspace root and an ordered
//! inventory of files with precomputed content hashes, this library computes
//! a deterministic digest of the matched files' content hashes and memoizes
//! it in a cache keyed by the normalized pattern.

pub mod cache;
pub mod digest;
pub mod glob;
pub mod workspace_files;

pub use cache::HashCache;
pub use digest::hash;
pub use glob::GlobError;
pub use glob::PatternMatcher;
pub use workspace_files::hash_workspace_files;
pub use workspace_files::matched_file_paths;
pub use workspace_files::strip_sentinel;
pub use workspace_files::FileData;
