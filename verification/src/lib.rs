//! Local discovery of files, folders and installed applications.
//!
//! The crate builds an in-memory index of filesystem entries and installed
//! applications, applies a path-based inclusion policy, and answers ranked
//! search queries against that index.  Traversal of the disk and enumeration
//! of installed applications are left to the caller, who hands their results
//! in as plain values; everything the crate then does with them is verified.

pub mod apps;
pub mod chat;
pub mod error;
pub mod extract;
pub mod indexer;
pub mod models;
pub mod normalize;
pub mod policy;
pub mod prompts;
pub mod query;
pub mod rank;
pub mod store;
pub mod text;
pub mod tokens;
