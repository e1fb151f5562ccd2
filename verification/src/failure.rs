//! The kinds of failure that the library reports to its callers.

use vstd::prelude::*;

verus! {

/// Why an operation of the library failed.
#[derive(Debug, Clone, Copy, PartialEq, Eq, Structural)]
pub enum Failure {
    /// The bearer token is absent, malformed or unknown.
    Unauthorized,
    /// An OTLP batch holds a span that cannot be stored; the whole batch is refused.
    InvalidBatch,
    /// A required field of a write is missing.
    InvalidInput,
    /// No trace, error or project has the given id.
    NotFound,
    /// The store could not be reached or refused a statement.
    StorageFailure,
    /// An error could not be taken from a span event; the span itself is stored.
    ExtractionFailure,
    /// A timestamp is no decimal number of nanoseconds that fits in 64 bits.
    InvalidTimestamp,
}

impl Failure {
    /// The HTTP status with which the failure is answered. A record that was not found is
    /// answered with an empty result, and an error that could not be taken from a span
    /// event is only logged: neither has a status.
    pub open spec fn status(self) -> Option<u16> {
        match self {
            Failure::Unauthorized => Some(401),
            Failure::InvalidInput => Some(400),
            Failure::InvalidBatch => Some(500),
            Failure::InvalidTimestamp => Some(500),
            Failure::StorageFailure => Some(500),
            Failure::NotFound => None,
            Failure::ExtractionFailure => None,
        }
    }

    /// The HTTP status with which the failure is answered, if it is answered as one.
    pub fn http_status(&self) -> (code: Option<u16>)
        ensures
            code == self.status(),
    {
        match self {
            Failure::Unauthorized => Some(401),
            Failure::InvalidInput => Some(400),
            Failure::InvalidBatch => Some(500),
            Failure::InvalidTimestamp => Some(500),
            Failure::StorageFailure => Some(500),
            Failure::NotFound => None,
            Failure::ExtractionFailure => None,
        }
    }
}

} // verus!
