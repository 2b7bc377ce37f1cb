//! Feature statistics for Python source files held in content-addressed stores.
//!
//! A parsed file becomes a vector of flags (`visitor`), a namespace of files is
//! walked once per distinct content hash (`walker`), and the hashes of a
//! dataset are processed chunk by chunk into columns of flags (`scheduler`,
//! `columns`).
pub mod columns;
pub mod hash;
pub mod laws;
pub mod line_endings;
pub mod output;
pub mod scheduler;
pub mod search;
pub mod source;
pub mod stats;
pub mod tree;
pub mod visitor;
pub mod walker;
