//! Core engine of a userspace network filesystem client.
//!
//! The engine maintains the mapping between kernel-visible inode numbers
//! and backing-relative paths, manages the lifecycle of open files
//! (fetch on first open, buffered local writes, flush of dirty contents,
//! eviction on last release), and projects remote stat results into
//! kernel-facing attribute records.  All remote and local I/O is performed
//! by the surrounding program, which hands the engine plain values.

pub mod attrs;
pub mod bytes;
pub mod cache;
pub mod digest;
pub mod engine;
pub mod errors;
pub mod paths;
pub mod registry;
pub mod table;

pub use errors::FsError;
