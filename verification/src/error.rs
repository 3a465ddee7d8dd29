//! Error taxonomy of the gateway: structured engine failures and their
//! mapping to HTTP status codes and JSON error bodies.
//!
//! Engines fail either with a structured `HttpError` (a status code and a
//! message) or with an opaque internal error. Before response headers are
//! sent, every failure becomes a `(status, ErrorResponse)` pair whose body
//! serializes as `{"error": "<message>"}`.

use vstd::prelude::*;
use vstd::string::StringExecFns;

verus! {

/// Status code sent on an internal failure.
pub const STATUS_INTERNAL_SERVER_ERROR: u16 = 500;

/// Status code sent when the requested model is not registered.
pub const STATUS_NOT_FOUND: u16 = 404;

/// Status code reserved for a live-but-not-ready service.
pub const STATUS_SERVICE_UNAVAILABLE: u16 = 503;

/// A structured failure an engine may raise: an HTTP status code to relay
/// and a client-visible message. Only codes in `[400, 500)` are relayed
/// verbatim; anything else is remapped to an internal server error.
#[derive(Debug)]
pub struct HttpError {
    pub code: u16,
    pub message: String,
}

/// A failure returned by an engine invocation: either a structured
/// `HttpError`, or an opaque internal error carrying only its rendering.
#[derive(Debug)]
pub enum EngineError {
    Http(HttpError),
    Other(String),
}

/// The JSON error body: serializes as `{"error": "<message>"}`.
#[derive(Debug)]
pub struct ErrorResponse {
    pub error: String,
}

/// True exactly when a structured `HttpError` code is relayed to the client
/// unchanged: the client-error range `[400, 500)`.
pub open spec fn relayable_code(code: u16) -> bool {
    400 <= code < 500
}

/// The message an opaque engine failure is wrapped in: the operation's
/// generic label, `": "`, then the failure's own rendering.
pub open spec fn wrapped_message(alt_msg: Seq<char>, err: Seq<char>) -> Seq<char> {
    alt_msg + ": "@ + err
}

impl ErrorResponse {
    /// The fixed response for a request naming an unregistered model.
    pub fn model_not_found() -> (r: (u16, ErrorResponse))
        ensures
            r.0 == STATUS_NOT_FOUND,
            r.1.error@ == "Model not found"@,
    {
        (
            STATUS_NOT_FOUND,
            ErrorResponse { error: String::from_str("Model not found") },
        )
    }

    /// The fixed response for a service that is live but not ready.
    pub fn _service_unavailable() -> (r: (u16, ErrorResponse))
        ensures
            r.0 == STATUS_SERVICE_UNAVAILABLE,
            r.1.error@ == "Service is not ready"@,
    {
        (
            STATUS_SERVICE_UNAVAILABLE,
            ErrorResponse { error: String::from_str("Service is not ready") },
        )
    }

    /// An internal server error carrying `msg` as the client-visible body.
    pub fn internal_server_error(msg: &str) -> (r: (u16, ErrorResponse))
        ensures
            r.0 == STATUS_INTERNAL_SERVER_ERROR,
            r.1.error@ == msg@,
    {
        (
            STATUS_INTERNAL_SERVER_ERROR,
            ErrorResponse { error: msg.to_owned() },
        )
    }

    /// Maps an engine failure to a response: a structured `HttpError` goes
    /// through [`ErrorResponse::from_http_error`]; an opaque failure becomes
    /// an internal server error whose message wraps the failure's rendering
    /// in the operation label `alt_msg`.
    pub fn from_anyhow(err: EngineError, alt_msg: &str) -> (r: (u16, ErrorResponse))
        ensures
            match err {
                EngineError::Http(h) => {
                    &&& relayable_code(h.code) ==> r.0 == h.code
                    &&& !relayable_code(h.code) ==> r.0 == STATUS_INTERNAL_SERVER_ERROR
                    &&& r.1.error@ == h.message@
                },
                EngineError::Other(msg) => {
                    &&& r.0 == STATUS_INTERNAL_SERVER_ERROR
                    &&& r.1.error@ == wrapped_message(alt_msg@, msg@)
                },
            },
    {
        match err {
            EngineError::Http(http_error) => ErrorResponse::from_http_error(http_error),
            EngineError::Other(msg) => {
                let mut full = alt_msg.to_owned();
                full.append(": ");
                full.append(msg.as_str());
                proof {
                    assert(full@ =~= wrapped_message(alt_msg@, msg@));
                }
                (STATUS_INTERNAL_SERVER_ERROR, ErrorResponse { error: full })
            },
        }
    }

    /// Maps a structured `HttpError` to a response: a code in `[400, 500)`
    /// and its message are relayed verbatim; an out-of-range code is
    /// remapped to an internal server error, keeping the message.
    pub fn from_http_error(err: HttpError) -> (r: (u16, ErrorResponse))
        ensures
            relayable_code(err.code) ==> r.0 == err.code,
            !relayable_code(err.code) ==> r.0 == STATUS_INTERNAL_SERVER_ERROR,
            r.1.error@ == err.message@,
    {
        if err.code < 400 || err.code >= 500 {
            return ErrorResponse::internal_server_error(err.message.as_str());
        }
        (err.code, ErrorResponse { error: err.message })
    }
}

impl From<HttpError> for ErrorResponse {
    fn from(err: HttpError) -> (r: Self) {
        ErrorResponse { error: err.message }
    }
}

impl vstd::std_specs::convert::FromSpecImpl<HttpError> for ErrorResponse {
    open spec fn obeys_from_spec() -> bool {
        true
    }

    open spec fn from_spec(err: HttpError) -> Self {
        ErrorResponse { error: err.message }
    }
}

} // verus!
