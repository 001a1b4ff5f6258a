//! The error answered to an HTTP request.

use vstd::prelude::*;

verus! {

/// Why a request was refused, with the message answered to the client.
#[derive(Debug, Clone, PartialEq, Eq)]
pub enum ApiError {
    BadRequest(String),
    NotFound(String),
    SessionNotFound(String),
    InternalError(String),
}

impl ApiError {
    /// The message carried by the error.
    pub open spec fn message(self) -> Seq<char> {
        match self {
            ApiError::BadRequest(m) => m@,
            ApiError::NotFound(m) => m@,
            ApiError::SessionNotFound(m) => m@,
            ApiError::InternalError(m) => m@,
        }
    }

    /// A refusal as a bad request with message `m`.
    pub open spec fn is_bad_request(self, m: Seq<char>) -> bool {
        self is BadRequest && self.message() == m
    }

    /// A refusal as not found with message `m`.
    pub open spec fn is_not_found(self, m: Seq<char>) -> bool {
        self is NotFound && self.message() == m
    }
}

} // verus!
