//! gRPC status codes and the statuses the service answers with.

use vstd::prelude::*;

verus! {

/// The gRPC status codes.
#[derive(Clone, Copy, Debug, PartialEq, Eq, Structural)]
pub enum Code {
    /// The code named `OK` on the wire.
    Success,
    Cancelled,
    Unknown,
    InvalidArgument,
    DeadlineExceeded,
    NotFound,
    AlreadyExists,
    PermissionDenied,
    ResourceExhausted,
    FailedPrecondition,
    Aborted,
    OutOfRange,
    Unimplemented,
    Internal,
    Unavailable,
    DataLoss,
    Unauthenticated,
}

/// A gRPC status: a code and a human-readable message.
#[derive(Clone, Debug)]
pub struct Status {
    /// The status code.
    pub code: Code,
    /// The message sent with the code.
    pub message: String,
}

impl Status {
    /// Creates a status.
    pub fn new(code: Code, message: String) -> (status: Self)
        ensures
            status.code == code,
            status.message == message,
    {
        Status { code, message }
    }

    /// The status code.
    pub fn code(&self) -> (code: Code)
        ensures
            code == self.code,
    {
        self.code
    }
}

} // verus!
