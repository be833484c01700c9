//! The one error a request can end with.

use vstd::prelude::*;
use vstd::string::*;

verus! {

/// What went wrong with a request.
#[derive(Debug, Copy, Clone, PartialEq, Eq, Structural)]
pub enum ErrorKind {
    /// The event store could not be reached, or failed the query.
    Store,
    /// The event store answered with something that does not fit the model.
    MalformedResponse,
    /// The request itself could not be understood.
    InvalidInput,
    /// A sum of call counters is beyond what its counter can hold.
    CounterOverflow,
}

/// A request-level failure. Callers see only its message.
#[derive(Debug)]
pub struct ApiError {
    pub kind: ErrorKind,
    pub message: String,
}

impl ApiError {
    pub fn new(kind: ErrorKind, message: String) -> (r: ApiError)
        ensures
            r.kind == kind,
            r.message == message,
    {
        ApiError { kind, message }
    }

    /// The error for a counter sum that does not fit.
    pub fn counter_overflow() -> (r: ApiError)
        ensures
            r.kind == ErrorKind::CounterOverflow,
    {
        ApiError {
            kind: ErrorKind::CounterOverflow,
            message: String::from_str("a call counter sum is out of range"),
        }
    }

    /// The text a client is sent: `error: ` and the message.
    pub fn response_body(&self) -> (r: String)
        ensures
            r@ == "error: "@ + self.message@,
    {
        let mut body = String::from_str("error: ");
        body.append(self.message.as_str());
        body
    }
}

} // verus!
