//! The failure taxonomy of the session subsystem. Every fallible operation
//! of the library reports one of these; all of them are recovered at the
//! request boundary and none aborts the process.

use vstd::prelude::*;

verus! {

/// Why a request against the session subsystem was refused.
#[derive(Clone, Copy, Debug, PartialEq, Eq, Structural)]
pub enum ApiError {
    /// Credentials are missing, malformed, or do not match the table.
    Unauthorized,
    /// No live session carries the requested id.
    NotFound,
    /// A guest tried to connect before the host activated the session.
    InactiveSession,
    /// Every port of the audio range is already taken.
    AllPortsInUse,
    /// The id space was exhausted while drawing a fresh session id.
    Exhausted,
}

impl ApiError {
    /// The HTTP status code under which the error is surfaced to a client.
    pub fn status_code(&self) -> (code: u16)
        ensures
            code == self.spec_status_code(),
    {
        match self {
            ApiError::Unauthorized => 401,
            ApiError::NotFound => 404,
            ApiError::InactiveSession => 400,
            ApiError::AllPortsInUse => 400,
            ApiError::Exhausted => 500,
        }
    }

    /// The status code as a mathematical function of the variant.
    pub open spec fn spec_status_code(self) -> u16 {
        match self {
            ApiError::Unauthorized => 401,
            ApiError::NotFound => 404,
            ApiError::InactiveSession => 400,
            ApiError::AllPortsInUse => 400,
            ApiError::Exhausted => 500,
        }
    }
}

} // verus!
