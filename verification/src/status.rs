//! The failure value that every operation of the gateway reports.
use vstd::prelude::*;

verus! {

/// The status codes with which a call of the RPC protocol fails.
#[derive(Clone, Copy, Debug, PartialEq, Eq, Structural)]
pub enum Code {
    Cancelled,
    Unknown,
    InvalidArgument,
    DeadlineExceeded,
    NotFound,
    AlreadyExists,
    PermissionDenied,
    ResourceExhausted,
    FailedPrecondition,
    Aborted,
    OutOfRange,
    Unimplemented,
    Internal,
    Unavailable,
    DataLoss,
    Unauthenticated,
}

/// A failed call: a status code and a message for the person who reads it.
#[derive(Clone, Debug, PartialEq, Eq)]
pub struct Status {
    pub code: Code,
    pub message: String,
}

/// What a [`Status`] holds, with its message as a sequence of characters.
pub struct StatusModel {
    pub code: Code,
    pub message: Seq<char>,
}

impl View for Status {
    type V = StatusModel;

    open spec fn view(&self) -> StatusModel {
        StatusModel { code: self.code, message: self.message@ }
    }
}

impl Status {
    /// The internal-error status with the given message, as a model.
    pub open spec fn internal_model(message: Seq<char>) -> StatusModel {
        StatusModel { code: Code::Internal, message }
    }

    /// A status with the given code and message.
    pub fn new(code: Code, message: String) -> (status: Status)
        ensures
            status@ == (StatusModel { code, message: message@ }),
    {
        Status { code, message }
    }

    /// The status that reports an internal error with the given message.
    pub fn internal(message: String) -> (status: Status)
        ensures
            status@ == Status::internal_model(message@),
    {
        Status { code: Code::Internal, message }
    }

    /// The status code.
    pub fn code(&self) -> (code: Code)
        ensures
            code == self@.code,
    {
        self.code
    }

    /// The message.
    pub fn message(&self) -> (message: &str)
        ensures
            message@ == self@.message,
    {
        self.message.as_str()
    }
}

} // verus!
