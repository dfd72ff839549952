//! Configuration files as they were found.

use vstd::prelude::*;

verus! {

/// What reading and parsing a configuration file gave.
#[derive(Debug)]
pub enum Source<T> {
    /// The file could not be read, for the given reason.
    Unreadable(String),
    /// The file does not hold a document of the expected form, for the given reason.
    Malformed(String),
    /// The document.
    Parsed(T),
}

} // verus!
