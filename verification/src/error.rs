//! What an extraction can fail with.
use vstd::prelude::*;

verus! {

/// Failure of a download or an extraction.  `E` is whatever the application's
/// requests, files and archive readers fail with; it is carried through
/// unchanged.
#[derive(Debug, PartialEq, Eq)]
pub enum ExtractError<E> {
    /// The path of the URL ends like no known archive.
    UnsupportedArchiveType,
    /// A range request was not answered with partial content; the text is the
    /// message of the I/O error that this stands for.
    UnexpectedStatus(String),
    /// A failure of the work done by the application.
    Outside(E),
}

} // verus!
