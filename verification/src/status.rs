//! Refusals: a gRPC status code and the text that goes with it.

use vstd::prelude::*;

verus! {

/// The status codes that the services answer with.
#[derive(Clone, Copy, Debug, PartialEq, Eq, Structural)]
pub enum Code {
    InvalidArgument,
    NotFound,
    ResourceExhausted,
    FailedPrecondition,
    Unimplemented,
    Unavailable,
    DeadlineExceeded,
    Internal,
}

/// A refused call.
#[derive(Clone, Debug, PartialEq, Eq)]
pub struct Status {
    pub code: Code,
    pub message: String,
}

/// What a refusal says.
pub struct StatusView {
    pub code: Code,
    pub message: Seq<char>,
}

impl View for Status {
    type V = StatusView;

    open spec fn view(&self) -> StatusView {
        StatusView { code: self.code, message: self.message@ }
    }
}

pub open spec fn invalid_argument(message: Seq<char>) -> StatusView {
    StatusView { code: Code::InvalidArgument, message }
}

pub open spec fn not_found(message: Seq<char>) -> StatusView {
    StatusView { code: Code::NotFound, message }
}

pub open spec fn resource_exhausted(message: Seq<char>) -> StatusView {
    StatusView { code: Code::ResourceExhausted, message }
}

pub open spec fn failed_precondition(message: Seq<char>) -> StatusView {
    StatusView { code: Code::FailedPrecondition, message }
}

pub open spec fn unimplemented(message: Seq<char>) -> StatusView {
    StatusView { code: Code::Unimplemented, message }
}

pub open spec fn unavailable(message: Seq<char>) -> StatusView {
    StatusView { code: Code::Unavailable, message }
}

pub open spec fn deadline_exceeded(message: Seq<char>) -> StatusView {
    StatusView { code: Code::DeadlineExceeded, message }
}

pub open spec fn internal(message: Seq<char>) -> StatusView {
    StatusView { code: Code::Internal, message }
}

/// The outcome of a check: `None` where it passed, else the refusal.
pub open spec fn refusal<T>(result: Result<T, Status>) -> Option<StatusView> {
    match result {
        Ok(_) => None,
        Err(status) => Some(status@),
    }
}

impl Status {
    pub fn new(code: Code, message: String) -> (status: Status)
        ensures
            status@ == (StatusView { code, message: message@ }),
    {
        Status { code, message }
    }

    pub fn invalid_argument(message: &str) -> (status: Status)
        ensures
            status@ == invalid_argument(message@),
    {
        Status { code: Code::InvalidArgument, message: message.to_string() }
    }

    pub fn not_found(message: &str) -> (status: Status)
        ensures
            status@ == not_found(message@),
    {
        Status { code: Code::NotFound, message: message.to_string() }
    }

    pub fn resource_exhausted(message: &str) -> (status: Status)
        ensures
            status@ == resource_exhausted(message@),
    {
        Status { code: Code::ResourceExhausted, message: message.to_string() }
    }

    pub fn failed_precondition(message: &str) -> (status: Status)
        ensures
            status@ == failed_precondition(message@),
    {
        Status { code: Code::FailedPrecondition, message: message.to_string() }
    }

    pub fn unimplemented(message: &str) -> (status: Status)
        ensures
            status@ == unimplemented(message@),
    {
        Status { code: Code::Unimplemented, message: message.to_string() }
    }

    pub fn unavailable(message: &str) -> (status: Status)
        ensures
            status@ == unavailable(message@),
    {
        Status { code: Code::Unavailable, message: message.to_string() }
    }

    pub fn internal(message: &str) -> (status: Status)
        ensures
            status@ == internal(message@),
    {
        Status { code: Code::Internal, message: message.to_string() }
    }

    pub fn deadline_exceeded(message: &str) -> (status: Status)
        ensures
            status@ == deadline_exceeded(message@),
    {
        Status { code: Code::DeadlineExceeded, message: message.to_string() }
    }
}

/// Each refusal has its own code and says what it was given. A result that is none is refused
/// with what it says.
pub proof fn refusals_say_what_they_are<T>(message: Seq<char>, result: Result<T, Status>)
    ensures
        invalid_argument(message).code == Code::InvalidArgument,
        not_found(message).code == Code::NotFound,
        resource_exhausted(message).code == Code::ResourceExhausted,
        failed_precondition(message).code == Code::FailedPrecondition,
        unimplemented(message).code == Code::Unimplemented,
        unavailable(message).code == Code::Unavailable,
        deadline_exceeded(message).code == Code::DeadlineExceeded,
        internal(message).code == Code::Internal,
        invalid_argument(message).message == message && not_found(message).message == message
            && resource_exhausted(message).message == message && failed_precondition(
            message,
        ).message == message && unimplemented(message).message == message && unavailable(
            message,
        ).message == message && deadline_exceeded(message).message == message && internal(
            message,
        ).message == message,
        result is Ok <==> refusal(result) is None,
        result matches Err(status) ==> (refusal(result) matches Some(told) && told.code
            == status.code && told.message == status.message@),
{
}

} // verus!
