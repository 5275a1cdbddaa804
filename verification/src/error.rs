//! The errors of the bus.

use vstd::prelude::*;
use vstd::string::*;

verus! {

/// What the bus refuses, and why.
#[derive(Debug)]
pub enum MsgbusError {
    InvalidArgument(String),
    NotFound(String),
    Conflict(String),
    Storage(String),
    Serialization(String),
}

/// The kinds of [`MsgbusError`].
pub enum ErrorKind {
    InvalidArgument,
    NotFound,
    Conflict,
    Storage,
    Serialization,
}

/// An error as its kind and its text.
pub struct ErrorView {
    pub kind: ErrorKind,
    pub text: Seq<char>,
}

impl View for MsgbusError {
    type V = ErrorView;

    open spec fn view(&self) -> ErrorView {
        match *self {
            MsgbusError::InvalidArgument(text) => ErrorView {
                kind: ErrorKind::InvalidArgument,
                text: text@,
            },
            MsgbusError::NotFound(text) => ErrorView { kind: ErrorKind::NotFound, text: text@ },
            MsgbusError::Conflict(text) => ErrorView { kind: ErrorKind::Conflict, text: text@ },
            MsgbusError::Storage(text) => ErrorView { kind: ErrorKind::Storage, text: text@ },
            MsgbusError::Serialization(text) => ErrorView {
                kind: ErrorKind::Serialization,
                text: text@,
            },
        }
    }
}

/// An invalid argument, described by `text`.
pub open spec fn invalid_argument(text: Seq<char>) -> ErrorView {
    ErrorView { kind: ErrorKind::InvalidArgument, text }
}

/// A conflict with what is stored, described by `text`.
pub open spec fn conflict(text: Seq<char>) -> ErrorView {
    ErrorView { kind: ErrorKind::Conflict, text }
}

/// A failure of the storage, described by `text`.
pub open spec fn storage_failure(text: Seq<char>) -> ErrorView {
    ErrorView { kind: ErrorKind::Storage, text }
}

/// How an error reads: the name of its kind, a colon and its text.
pub open spec fn error_line(e: ErrorView) -> Seq<char> {
    let kind = match e.kind {
        ErrorKind::InvalidArgument => "invalid argument: "@,
        ErrorKind::NotFound => "not found: "@,
        ErrorKind::Conflict => "conflict: "@,
        ErrorKind::Storage => "storage error: "@,
        ErrorKind::Serialization => "serialization error: "@,
    };
    kind + e.text
}

impl MsgbusError {
    /// The error as a line of text.
    pub fn describe(&self) -> (line: String)
        ensures
            line@ == error_line(self@),
    {
        let (kind, text) = match self {
            MsgbusError::InvalidArgument(text) => ("invalid argument: ", text),
            MsgbusError::NotFound(text) => ("not found: ", text),
            MsgbusError::Conflict(text) => ("conflict: ", text),
            MsgbusError::Storage(text) => ("storage error: ", text),
            MsgbusError::Serialization(text) => ("serialization error: ", text),
        };
        let mut line = kind.to_owned();
        line.append(text.as_str());
        line
    }
}

/// `res` is `expected`, its error taken by its view.
pub open spec fn is_outcome<T>(
    res: Result<T, MsgbusError>,
    expected: Result<T, ErrorView>,
) -> bool {
    match (res, expected) {
        (Ok(a), Ok(b)) => a == b,
        (Err(e), Err(v)) => e@ == v,
        _ => false,
    }
}

/// `res` is `expected`, its value and its error taken by their views.
pub open spec fn is_outcome_of<T: View>(
    res: Result<T, MsgbusError>,
    expected: Result<T::V, ErrorView>,
) -> bool {
    match (res, expected) {
        (Ok(a), Ok(b)) => a@ == b,
        (Err(e), Err(v)) => e@ == v,
        _ => false,
    }
}

/// A failure of the storage that reads `text`.
pub fn storage_err(text: &str) -> (err: MsgbusError)
    ensures
        err@ == storage_failure(text@),
{
    MsgbusError::Storage(text.to_owned())
}

} // verus!
