//! Errors of a duplication run.

use vstd::prelude::*;

verus! {

/// Why a duplication run was abandoned.  Each variant carries a message or
/// the offending input.
#[derive(Debug, PartialEq, Eq)]
pub enum DuplicateError {
    /// Something the run needs is absent: the root view is unpublished, a row
    /// or view is missing from the published data, a database block lacks a
    /// key.
    RecordNotFound(String),
    /// An identifier is not a UUID, or a published payload is malformed.  The
    /// field holds the input that was rejected.
    Parse(String),
    /// A collab could not be decoded or encoded.
    Codec(String),
    /// The relational store refused a read or a write.
    Storage(String),
}

impl DuplicateError {
    /// The text carried by the error, whatever its kind.
    pub open spec fn text(self) -> Seq<char> {
        match self {
            DuplicateError::RecordNotFound(m) => m@,
            DuplicateError::Parse(m) => m@,
            DuplicateError::Codec(m) => m@,
            DuplicateError::Storage(m) => m@,
        }
    }

    /// A `RecordNotFound` error with the given message.
    pub fn record_not_found(message: &str) -> (e: DuplicateError)
        ensures
            e is RecordNotFound,
            e.text() == message@,
    {
        DuplicateError::RecordNotFound(message.to_owned())
    }

    /// The message of the error as an owned string.
    pub fn message(&self) -> (m: String)
        ensures
            m@ == self.text(),
    {
        match self {
            DuplicateError::RecordNotFound(m) => m.clone(),
            DuplicateError::Parse(m) => m.clone(),
            DuplicateError::Codec(m) => m.clone(),
            DuplicateError::Storage(m) => m.clone(),
        }
    }
}

} // verus!
