//! The crate's error type.
//!
//! Failures reach the engine only as input/output errors reported by the
//! surrounding process; they are carried here as a message string.

use vstd::prelude::*;

verus! {

/// An error surfaced by the selection engine.
#[derive(Debug, Clone, PartialEq, Eq)]
pub enum Error {
    /// An input/output failure, with the reporting layer's message.
    Io(String),
}

impl Error {
    /// The human-readable message of the error.
    pub fn message(&self) -> (r: &str)
        ensures
            r@ == self.spec_message(),
    {
        match self {
            Error::Io(m) => m.as_str(),
        }
    }

    /// The message carried by the error.
    pub open spec fn spec_message(&self) -> Seq<char> {
        match self {
            Error::Io(m) => m@,
        }
    }
}

} // verus!
