//! Safe pruning of on-disk cache trees.
//!
//! The crate models filesystem paths lexically, validates them against an
//! allowed base directory and a blocklist of protected system locations,
//! decides which files of a directory tree are eligible for deletion, and
//! accounts for every byte that a sweep would reclaim.

pub mod config;
pub mod engine;
pub mod environment;
pub mod errors;
pub mod path_model;
pub mod security;
pub mod stats;
pub mod text;
pub mod walker;

pub use path_model::FsPath;
