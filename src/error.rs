//! The error kinds that the pipeline reports to its callers.
use vstd::prelude::*;

verus! {

/// How a call to the text-generation or photo-search service failed.
#[derive(Clone, Copy, Debug, PartialEq, Eq, Structural)]
pub enum UpstreamKind {
    Timeout,
    NotReady,
    Unknown,
}

/// Failure of a pipeline operation.
#[derive(Clone, Copy, Debug, PartialEq, Eq, Structural)]
pub enum TripError {
    /// An identifier string is not 24 hexadecimal digits.
    Validation,
    /// No record matches the identity and owner asked for.
    NotFound,
    /// The caller's token is missing, invalid or expired.
    Auth,
    /// The generation or photo-search service failed.
    Upstream(UpstreamKind),
    /// A database operation failed.
    Persistence,
}

impl TripError {
    /// A short sentence for display.
    pub fn message(&self) -> (r: String)
        ensures
            r@ == error_message(*self),
    {
        match self {
            TripError::Validation => String::from_str("Invalid identifier"),
            TripError::NotFound => String::from_str("Record not found"),
            TripError::Auth => String::from_str("Not authenticated"),
            TripError::Upstream(UpstreamKind::Timeout) => String::from_str("Model took too long"),
            TripError::Upstream(UpstreamKind::NotReady) => String::from_str("Model is not ready"),
            TripError::Upstream(UpstreamKind::Unknown) => String::from_str("Unknown service error"),
            TripError::Persistence => String::from_str("Database operation failed"),
        }
    }
}

/// The display text of each error kind.
pub open spec fn error_message(e: TripError) -> Seq<char> {
    match e {
        TripError::Validation => "Invalid identifier"@,
        TripError::NotFound => "Record not found"@,
        TripError::Auth => "Not authenticated"@,
        TripError::Upstream(UpstreamKind::Timeout) => "Model took too long"@,
        TripError::Upstream(UpstreamKind::NotReady) => "Model is not ready"@,
        TripError::Upstream(UpstreamKind::Unknown) => "Unknown service error"@,
        TripError::Persistence => "Database operation failed"@,
    }
}

} // verus!
