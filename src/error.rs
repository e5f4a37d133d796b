//! Failures that abort a listing or a lookup.
use vstd::prelude::*;

verus! {

/// Which of the hard failures happened.
#[derive(Debug, Clone, Copy, PartialEq, Eq, Structural)]
pub enum ErrorKind {
    /// The documentation root, or the named crate under it, does not exist.
    NotFound,
    /// A page's file name has no `.`, or does not end in `.html`.
    MalformedFileName,
    /// Reading a directory or a file failed.
    Io,
    /// The documentation generator exited with a failure.
    ExternalProcess,
}

/// A hard failure, with a message for the user.
#[derive(Debug)]
pub struct Error {
    pub kind: ErrorKind,
    pub message: String,
}

impl Error {
    /// A failure of `kind` with `message`.
    pub fn new(kind: ErrorKind, message: String) -> (r: Error)
        ensures
            r.kind == kind,
            r.message@ == message@,
    {
        Error { kind, message }
    }

    /// The message to show the user.
    pub fn message(&self) -> (r: String)
        ensures
            r@ == self.message@,
    {
        self.message.clone()
    }
}

} // verus!
