//! The status codes of a finished span.

use vstd::prelude::*;

verus! {

/// How a span ended. `OK` is the only code of a successful span.
#[derive(Clone, Copy, Eq, PartialEq, Structural, Ord, PartialOrd, Hash, Debug)]
pub enum StatusCode {
    OK,
    Cancelled,
    Unknown,
    InvalidArgument,
    DeadlineExceeded,
    NotFound,
    AlreadyExists,
    PermissionDenied,
    ResourceExhausted,
    FailedPrecondition,
    Aborted,
    OutOfRange,
    Unimplemented,
    Internal,
    Unavailable,
    DataLoss,
    Unauthenticated,
}

impl Default for StatusCode {
    fn default() -> (r: StatusCode)
        ensures
            r == StatusCode::OK,
    {
        StatusCode::OK
    }
}

} // verus!
