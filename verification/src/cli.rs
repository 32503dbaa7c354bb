//! The command-line surface, as plain data.
//!
//! The binary around the library parses its arguments and hands them over
//! in these types; the parsing itself is argument-handling glue and stays
//! outside the library.

use vstd::prelude::*;

verus! {

/// The arguments of the shoot command: the two roots of a snapshot run.
#[derive(Debug, PartialEq, Eq)]
pub struct ShootArgs {
    /// The source folder to snapshot.
    pub source: String,
    /// The destination folder receiving the snapshots.
    pub destination: String,
}

/// The commands this tool offers.
#[derive(Debug, PartialEq, Eq)]
pub enum Cli {
    /// Take a snapshot.
    Shoot(ShootArgs),
}

} // verus!
