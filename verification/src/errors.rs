//! The error type of the sample-store formats: a kind, as `std::io::ErrorKind`
//! names it, and a message.
use vstd::prelude::*;

verus! {

/// The kinds of failure the sample store reports.
#[derive(Clone, Copy, PartialEq, Eq, Debug, Structural)]
pub enum ErrorKind {
    NotFound,
    PermissionDenied,
    InvalidInput,
    InvalidData,
    UnexpectedEof,
}

/// A failure of a sample-store operation.
#[derive(Debug)]
pub struct IoError {
    pub kind: ErrorKind,
    pub message: String,
}

/// An error of the given kind with the given message.
pub fn io_error(kind: ErrorKind, msg: &str) -> (r: IoError)
    ensures
        r.kind == kind,
        r.message@ == msg@,
{
    IoError { kind, message: msg.to_owned() }
}

} // verus!
