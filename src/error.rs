//! The error kinds of detection, transport, parsing and writing.
use vstd::prelude::*;

verus! {

/// The ways in which detection, transport, parsing and writing can fail.
#[derive(Debug)]
pub enum SeqError {
    /// The path carries no recognized sequence-file suffix.
    FormatUnknown,
    /// Reading, writing, compressing or decompressing bytes failed.
    Io(String),
    /// A record violates the grammar of its format.
    Parse(String),
    /// A caller-supplied parameter is out of its accepted range.
    InvalidArgument(String),
}

} // verus!
