//! How a call over the network can end other than well.

use vstd::prelude::*;

use crate::error::ErrorKind;
use crate::error::ErrorView;
use crate::error::MsgbusError;

verus! {

/// The codes of a status, as gRPC names them.
#[derive(Copy, Clone, Debug, PartialEq, Eq, Structural)]
pub enum Code {
    Success,
    Cancelled,
    Unknown,
    InvalidArgument,
    DeadlineExceeded,
    NotFound,
    AlreadyExists,
    PermissionDenied,
    ResourceExhausted,
    FailedPrecondition,
    Aborted,
    OutOfRange,
    Unimplemented,
    Internal,
    Unavailable,
    DataLoss,
    Unauthenticated,
}

/// How a call ended: a code and what there is to say of it.
#[derive(Debug)]
pub struct Status {
    pub code: Code,
    pub message: String,
}

/// A [`Status`] as a value.
pub struct StatusView {
    pub code: Code,
    pub message: Seq<char>,
}

impl View for Status {
    type V = StatusView;

    open spec fn view(&self) -> StatusView {
        StatusView { code: self.code, message: self.message@ }
    }
}

/// A refusal of an argument, described by `message`.
pub open spec fn bad_argument(message: Seq<char>) -> StatusView {
    StatusView { code: Code::InvalidArgument, message }
}

/// The status that tells of an error.
pub open spec fn status_of(e: ErrorView) -> StatusView {
    StatusView {
        code: match e.kind {
            ErrorKind::InvalidArgument => Code::InvalidArgument,
            ErrorKind::NotFound => Code::NotFound,
            ErrorKind::Conflict => Code::FailedPrecondition,
            ErrorKind::Storage => Code::Internal,
            ErrorKind::Serialization => Code::Internal,
        },
        message: e.text,
    }
}

/// The number of a code, as gRPC counts them.
pub open spec fn code_number(code: Code) -> i32 {
    match code {
        Code::Success => 0,
        Code::Cancelled => 1,
        Code::Unknown => 2,
        Code::InvalidArgument => 3,
        Code::DeadlineExceeded => 4,
        Code::NotFound => 5,
        Code::AlreadyExists => 6,
        Code::PermissionDenied => 7,
        Code::ResourceExhausted => 8,
        Code::FailedPrecondition => 9,
        Code::Aborted => 10,
        Code::OutOfRange => 11,
        Code::Unimplemented => 12,
        Code::Internal => 13,
        Code::Unavailable => 14,
        Code::DataLoss => 15,
        Code::Unauthenticated => 16,
    }
}

impl Code {
    /// The number of the code, as gRPC counts them.
    pub fn number(&self) -> (res: i32)
        ensures
            res == code_number(*self),
    {
        match self {
            Code::Success => 0,
            Code::Cancelled => 1,
            Code::Unknown => 2,
            Code::InvalidArgument => 3,
            Code::DeadlineExceeded => 4,
            Code::NotFound => 5,
            Code::AlreadyExists => 6,
            Code::PermissionDenied => 7,
            Code::ResourceExhausted => 8,
            Code::FailedPrecondition => 9,
            Code::Aborted => 10,
            Code::OutOfRange => 11,
            Code::Unimplemented => 12,
            Code::Internal => 13,
            Code::Unavailable => 14,
            Code::DataLoss => 15,
            Code::Unauthenticated => 16,
        }
    }
}

/// How `tonic::Status` shows a status with this code number and this message.
pub uninterp spec fn status_text(code: i32, message: Seq<char>) -> Seq<char>;

/// Makes a `tonic::Status` and writes it out with its `Display`: what the code means, and the
/// message in quotes where there is one. The text starts with `code: '`, so it is not empty; which
/// text it is, is not said here beyond its name.
#[verifier::external_body]
fn show_status(code: i32, message: &str) -> (res: String)
    ensures
        res@ == status_text(code, message@),
        res@.len() > 0,
{
    tonic::Status::new(tonic::Code::from(code), message).to_string()
}

impl Status {
    /// The status as a line of text.
    pub fn describe(&self) -> (line: String)
        ensures
            line@ == status_text(code_number(self.code), self.message@),
            line@.len() > 0,
    {
        show_status(self.code.number(), self.message.as_str())
    }

    /// A refusal of an argument.
    pub fn invalid_argument(message: &str) -> (res: Status)
        ensures
            res@ == bad_argument(message@),
    {
        Status { code: Code::InvalidArgument, message: message.to_owned() }
    }
}

/// The status that tells of an error.
pub fn status_from_error(error: MsgbusError) -> (res: Status)
    ensures
        res@ == status_of(error@),
{
    match error {
        MsgbusError::InvalidArgument(message) => Status { code: Code::InvalidArgument, message },
        MsgbusError::NotFound(message) => Status { code: Code::NotFound, message },
        MsgbusError::Conflict(message) => Status { code: Code::FailedPrecondition, message },
        MsgbusError::Storage(message) => Status { code: Code::Internal, message },
        MsgbusError::Serialization(message) => Status { code: Code::Internal, message },
    }
}

/// A call that ended with this code may go well when it is made again.
pub open spec fn is_retryable(code: Code) -> bool {
    code == Code::Unavailable || code == Code::DeadlineExceeded || code == Code::Aborted || code
        == Code::Cancelled
}

/// Whether a call that ended with this code may go well when it is made again.
pub fn retryable_status(code: Code) -> (res: bool)
    ensures
        res == is_retryable(code),
{
    match code {
        Code::Unavailable => true,
        Code::DeadlineExceeded => true,
        Code::Aborted => true,
        Code::Cancelled => true,
        _ => false,
    }
}

/// An error of the bus is final: the status that tells of it is not one to try again.
pub proof fn law_errors_are_final(e: ErrorView)
    ensures
        !is_retryable(status_of(e).code),
        status_of(e).code != Code::Success,
{
}

} // verus!
