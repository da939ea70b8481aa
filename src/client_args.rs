//! The offering program's command line, as plain values.
use vstd::prelude::*;

verus! {

/// The offering program's arguments.
#[derive(Debug, PartialEq, Eq)]
pub struct Cli {
    /// Address of the acceptor, `host:port`.
    pub connect_to: String,
    pub command: Commands,
}

/// What the offering program is asked to do.
#[derive(Debug, PartialEq, Eq)]
pub enum Commands {
    /// Offer the files `file` as the package `name`.
    Upload { name: String, file: Vec<String> },
    /// Fetch files; not offered yet.
    Download { file: Vec<String> },
    /// List packages; not offered yet.
    List,
}

} // verus!
