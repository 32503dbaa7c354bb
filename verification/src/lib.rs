//! An incremental, content-addressed snapshot engine.
//!
//! Each snapshot mirrors a source directory tree; files unchanged since the
//! previous snapshot become symbolic links into that snapshot, while new or
//! modified files are copied in full. Content equality is decided by SHA-256
//! digests of the complete byte stream, never by size or timestamp heuristics.
//!
//! The library works on an in-memory model of the trees involved: callers
//! load the source tree and the previous snapshot into [`tree`] values, run
//! the engine, and materialize the resulting plan onto disk.

pub mod errors;
pub mod hashing;
pub mod tree;
pub mod engine;
pub mod guard;
pub mod dates;
pub mod cli;
