//! Store errors and the statuses that remote callers see.

use vstd::prelude::*;
use vstd::string::*;

verus! {

/// What a catalog store operation can fail with.
#[derive(Debug, Clone, PartialEq, Eq)]
pub enum StoreError {
    /// The operation named a game id that the catalog does not hold.
    NotFound,
    /// An insert named a game id that the catalog already holds.
    AlreadyExists,
    /// The persistence layer itself failed; the text says how.
    Failure(String),
}

/// The class of a failed remote call.
#[derive(Debug, Clone, Copy, PartialEq, Eq, Structural)]
pub enum Code {
    /// The caller named something that does not exist.
    NotFound,
    /// The caller's input cannot be accepted.
    InvalidArgument,
    /// The worker failed on its own side.
    Internal,
}

/// A failed remote call: its class and a message for the caller.
#[derive(Debug, Clone, PartialEq, Eq)]
pub struct Status {
    pub code: Code,
    pub message: String,
}

/// A [`Status`] with its message as a sequence of characters.
pub ghost struct StatusView {
    pub code: Code,
    pub message: Seq<char>,
}

impl View for Status {
    type V = StatusView;

    open spec fn view(&self) -> StatusView {
        StatusView { code: self.code, message: self.message@ }
    }
}

impl StoreError {
    /// The text that describes this error to a caller.
    pub open spec fn description(self) -> Seq<char> {
        match self {
            StoreError::NotFound => "game not found"@,
            StoreError::AlreadyExists => "game already exists"@,
            StoreError::Failure(cause) => cause@,
        }
    }

    /// The class under which this error is surfaced: a missing game is the
    /// caller's to recognise, a colliding id is a bad argument, and a failure
    /// of the store is internal.
    pub open spec fn code(self) -> Code {
        match self {
            StoreError::NotFound => Code::NotFound,
            StoreError::AlreadyExists => Code::InvalidArgument,
            StoreError::Failure(_) => Code::Internal,
        }
    }

    /// The status under which this error is surfaced.
    pub open spec fn status(self) -> StatusView {
        StatusView { code: self.code(), message: self.description() }
    }

    /// Describes this error in words.
    pub fn describe(&self) -> (text: String)
        ensures
            text@ == self.description(),
    {
        match self {
            StoreError::NotFound => String::from_str("game not found"),
            StoreError::AlreadyExists => String::from_str("game already exists"),
            StoreError::Failure(cause) => cause.clone(),
        }
    }
}

impl Status {
    /// An internal error with the given message.
    pub fn internal(message: String) -> (status: Status)
        ensures
            status@ == (StatusView { code: Code::Internal, message: message@ }),
    {
        Status { code: Code::Internal, message }
    }

    /// A rejection of the caller's input with the given message.
    pub fn invalid_argument(message: String) -> (status: Status)
        ensures
            status@ == (StatusView { code: Code::InvalidArgument, message: message@ }),
    {
        Status { code: Code::InvalidArgument, message }
    }

    /// Surfaces a store error to the remote caller.
    pub fn from_store_error(error: &StoreError) -> (status: Status)
        ensures
            status@ == error.status(),
    {
        let message = error.describe();
        match error {
            StoreError::NotFound => Status { code: Code::NotFound, message },
            StoreError::AlreadyExists => Status { code: Code::InvalidArgument, message },
            StoreError::Failure(_) => Status { code: Code::Internal, message },
        }
    }
}

} // verus!
