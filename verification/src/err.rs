//! Error taxonomy of the daemon surface.  Every failing operation reports one
//! of these kinds; the HTTP boundary maps a kind to its status code.

use vstd::prelude::*;

verus! {

/// Kind of a surfaced error.
#[derive(Clone, Copy, Debug, PartialEq, Eq, Structural)]
pub enum ErrorKind {
    /// The identified object is missing.
    NotFound,
    /// An insert hit an existing row.
    AlreadyExists,
    /// A schema or shape violation in the request.
    Validation,
    /// The object is in a state that forbids the operation.
    Conflict,
    /// The container runtime answered with an error other than a missing
    /// container.
    Runtime,
    /// A controller client call failed.
    Upstream,
    /// The user cancelled the operation.
    Interrupted,
    /// Catch-all.
    Internal,
}

impl ErrorKind {
    /// HTTP status code of the kind.
    pub fn status_code(&self) -> (r: u16)
        ensures
            r == self.spec_status_code(),
    {
        match self {
            ErrorKind::NotFound => 404,
            ErrorKind::AlreadyExists => 409,
            ErrorKind::Validation => 400,
            ErrorKind::Conflict => 409,
            ErrorKind::Runtime => 500,
            ErrorKind::Upstream => 502,
            ErrorKind::Interrupted => 500,
            ErrorKind::Internal => 500,
        }
    }

    /// The status code in specification form.
    pub open spec fn spec_status_code(self) -> u16 {
        match self {
            ErrorKind::NotFound => 404u16,
            ErrorKind::AlreadyExists => 409u16,
            ErrorKind::Validation => 400u16,
            ErrorKind::Conflict => 409u16,
            ErrorKind::Runtime => 500u16,
            ErrorKind::Upstream => 502u16,
            ErrorKind::Interrupted => 500u16,
            ErrorKind::Internal => 500u16,
        }
    }
}

/// A surfaced error: its kind and a human-readable message.
#[derive(Clone, Debug)]
pub struct ApiError {
    pub kind: ErrorKind,
    pub msg: String,
}

impl ApiError {
    /// Build an error of the given kind.
    pub fn new(kind: ErrorKind, msg: String) -> (r: ApiError)
        ensures
            r.kind == kind,
            r.msg == msg,
    {
        ApiError { kind, msg }
    }
}

} // verus!
