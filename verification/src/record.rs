//! Completion records: what is known of one finished request attempt.

use vstd::prelude::*;

verus! {

/// The ways in which an attempt can fail without a response.
#[derive(Clone, Copy, Debug, PartialEq, Eq, Structural)]
pub enum ErrorKind {
    /// No full response arrived within the per-request timeout.
    Timeout,
    /// The connection was refused or reset, or the name did not resolve.
    ConnectionError,
    /// The response was malformed.
    ProtocolError,
}

/// The hundreds digit of a status code, for the classes that HTTP defines.
#[derive(Clone, Copy, Debug, PartialEq, Eq, Structural)]
pub enum StatusClass {
    /// 100 to 199.
    Informational,
    /// 200 to 299.
    Successful,
    /// 300 to 399.
    Redirection,
    /// 400 to 499.
    ClientError,
    /// 500 to 599.
    ServerError,
    /// Any code below 100 or above 599.
    Other,
}

/// The class of a status code.
pub open spec fn class_of(status_code: u16) -> StatusClass {
    if 100 <= status_code < 200 {
        StatusClass::Informational
    } else if 200 <= status_code < 300 {
        StatusClass::Successful
    } else if 300 <= status_code < 400 {
        StatusClass::Redirection
    } else if 400 <= status_code < 500 {
        StatusClass::ClientError
    } else if 500 <= status_code < 600 {
        StatusClass::ServerError
    } else {
        StatusClass::Other
    }
}

/// Computes the class of a status code.
pub fn status_class(status_code: u16) -> (class: StatusClass)
    ensures
        class == class_of(status_code),
{
    if status_code < 100 {
        StatusClass::Other
    } else if status_code < 200 {
        StatusClass::Informational
    } else if status_code < 300 {
        StatusClass::Successful
    } else if status_code < 400 {
        StatusClass::Redirection
    } else if status_code < 500 {
        StatusClass::ClientError
    } else if status_code < 600 {
        StatusClass::ServerError
    } else {
        StatusClass::Other
    }
}

/// How an attempt ended. An attempt that got a full response is a success
/// whatever its status code; latencies are in microseconds.
#[derive(Clone, Copy, Debug, PartialEq, Eq, Structural)]
pub enum Outcome {
    Success { status_code: u16, latency_micros: u64, response_bytes: u64 },
    Failure { error_kind: ErrorKind, latency_micros: u64 },
}

impl Outcome {
    /// The time from the send to the end of the attempt, in microseconds.
    pub open spec fn latency(self) -> u64 {
        match self {
            Outcome::Success { latency_micros, .. } => latency_micros,
            Outcome::Failure { latency_micros, .. } => latency_micros,
        }
    }

    /// The time from the send to the end of the attempt, in microseconds.
    pub fn latency_micros(&self) -> (micros: u64)
        ensures
            micros == self.latency(),
    {
        match self {
            Outcome::Success { latency_micros, .. } => *latency_micros,
            Outcome::Failure { latency_micros, .. } => *latency_micros,
        }
    }

    /// Whether the connection that carried the attempt must be dropped
    /// instead of reused: after a timeout it may hang in an unknown state.
    pub fn poisons_connection(&self) -> (poisoned: bool)
        ensures
            poisoned == (self matches Outcome::Failure { error_kind: ErrorKind::Timeout, .. }),
    {
        match self {
            Outcome::Failure { error_kind: ErrorKind::Timeout, .. } => true,
            _ => false,
        }
    }

    /// Whether the attempt got a full response.
    pub fn is_success(&self) -> (yes: bool)
        ensures
            yes == (self is Success),
    {
        match self {
            Outcome::Success { .. } => true,
            Outcome::Failure { .. } => false,
        }
    }
}

/// The result of one finished attempt, with its place in the issue order.
#[derive(Clone, Copy, Debug, PartialEq, Eq, Structural)]
pub struct CompletionRecord {
    pub sequence_number: u64,
    pub outcome: Outcome,
}

} // verus!
