//! The library's error type: a kind (mirroring the `std::io::ErrorKind`
//! values the archive operations report) and a message.
use vstd::prelude::*;

verus! {

/// The category of a failed archive operation.
#[derive(Clone, Copy, Debug, PartialEq, Eq, Structural)]
pub enum ErrorKind {
    InvalidInput,
    NotFound,
    Unsupported,
    AlreadyExists,
    InvalidData,
    Other,
}

/// A failed archive operation: its kind and the message shown to the user.
#[derive(Debug)]
pub struct ArchiveError {
    pub kind: ErrorKind,
    pub message: String,
}

/// `e` has kind `kind` and message `msg`.
pub open spec fn is_error(e: ArchiveError, kind: ErrorKind, msg: Seq<char>) -> bool {
    e.kind == kind && e.message@ == msg
}

/// An error whose message is `prefix` followed by `detail`.
pub fn error_with(kind: ErrorKind, prefix: &str, detail: &str) -> (e: ArchiveError)
    ensures
        is_error(e, kind, prefix@ + detail@),
{
    let mut message = String::from_str(prefix);
    message.append(detail);
    ArchiveError { kind, message }
}

/// An error with a fixed message.
pub fn error_of(kind: ErrorKind, message: &str) -> (e: ArchiveError)
    ensures
        is_error(e, kind, message@),
{
    ArchiveError { kind, message: String::from_str(message) }
}

} // verus!
