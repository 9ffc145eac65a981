//! The crate's error type.
use vstd::prelude::*;

verus! {

/// This crate specific error type.
#[derive(Debug)]
pub struct Error {
    kind: ErrorKind,
}

impl Clone for Error {
    fn clone(&self) -> (r: Self)
        ensures
            r.kind_spec() == self.kind_spec(),
    {
        Error { kind: self.kind }
    }
}

impl Error {
    /// Returns the spec-level kind of this error.
    pub closed spec fn kind_spec(&self) -> ErrorKind {
        self.kind
    }

    /// Makes a new `Error` instance with the kind `kind`.
    pub fn new(kind: ErrorKind) -> (e: Self)
        ensures
            e.kind_spec() == kind,
    {
        Error { kind }
    }

    /// Returns the kind of this error.
    pub fn kind(&self) -> (k: ErrorKind)
        ensures
            k == self.kind_spec(),
    {
        self.kind
    }
}

/// The list of the possible error kinds.
#[derive(Debug, Clone, Copy, PartialEq, Eq, Structural)]
pub enum ErrorKind {
    /// Input data is invalid.
    InvalidInput,

    /// Other errors (e.g., I/O error).
    Other,
}

} // verus!
