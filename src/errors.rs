use vstd::prelude::*;

verus! {

/// The ways a fetch, sync, refresh or read of this core fails.
#[derive(Clone, Copy, Debug, PartialEq, Eq, Structural)]
pub enum ServiceError {
    /// The provider call failed or answered with an error status.
    UpstreamFetch,
    /// The store could not be read.
    StorageRead,
    /// The store could not be written.
    StorageWrite,
    /// A refresh named a source that this core does not know.
    UnsupportedSource,
    /// Every source of a refresh batch failed.
    NoSourcesRefreshed,
}

pub open spec fn error_message(e: ServiceError) -> Seq<char> {
    match e {
        ServiceError::UpstreamFetch => "upstream fetch failed"@,
        ServiceError::StorageRead => "storage read failed"@,
        ServiceError::StorageWrite => "storage write failed"@,
        ServiceError::UnsupportedSource => "unsupported source"@,
        ServiceError::NoSourcesRefreshed => "no sources refreshed successfully"@,
    }
}

impl ServiceError {
    /// A short human-readable description.
    pub fn message(&self) -> (r: String)
        ensures
            r@ == error_message(*self),
    {
        match self {
            ServiceError::UpstreamFetch => String::from_str("upstream fetch failed"),
            ServiceError::StorageRead => String::from_str("storage read failed"),
            ServiceError::StorageWrite => String::from_str("storage write failed"),
            ServiceError::UnsupportedSource => String::from_str("unsupported source"),
            ServiceError::NoSourcesRefreshed => String::from_str("no sources refreshed successfully"),
        }
    }
}

/// The error part of a response: a stable code, a message and a trace id
/// that ties the response to the server's log.
pub struct ErrorBody {
    pub code: String,
    pub message: String,
    pub trace_id: String,
}

/// An error as reported to a client.
pub struct ApiError {
    pub body: ErrorBody,
}

impl ApiError {
    /// An error with the given code and message, tagged with `trace_id`
    /// (a fresh id that the caller drew for this response).
    pub fn new(code: &str, message: String, trace_id: String) -> (r: ApiError)
        ensures
            r.body.code@ == code@,
            r.body.message == message,
            r.body.trace_id == trace_id,
    {
        ApiError { body: ErrorBody { code: code.to_owned(), message, trace_id } }
    }

    /// An error with the given code whose message describes `err`.
    pub fn from_error(code: &str, err: ServiceError, trace_id: String) -> (r: ApiError)
        ensures
            r.body.code@ == code@,
            r.body.message@ == error_message(err),
            r.body.trace_id == trace_id,
    {
        ApiError::new(code, err.message(), trace_id)
    }

    /// The trace id of this error.
    pub fn tracing_code(&self) -> (r: &str)
        ensures
            r@ == self.body.trace_id@,
    {
        self.body.trace_id.as_str()
    }
}

} // verus!
