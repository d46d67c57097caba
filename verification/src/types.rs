//! The request and response envelopes of the wire protocol, and the
//! library's error type.

use vstd::prelude::*;

verus! {

/// One inbound request, as decoded from a frame payload.
#[derive(Debug, Clone)]
pub struct HttpRequest {
    pub method: String,
    pub url: String,
    pub headers: Vec<(String, String)>,
    pub body_base64: Option<String>,
}

/// One outbound response, as encoded into the reply frame.
#[derive(Debug)]
pub struct HttpResponse {
    pub status: u16,
    pub headers: Vec<(String, String)>,
    pub body_base64: Option<String>,
    pub error: Option<ErrorEnvelope>,
}

/// The error half of a rejected or failed request.
#[derive(Debug, Clone)]
pub struct ErrorEnvelope {
    pub code: String,
    pub message: String,
}

/// Failures of the daemon itself; per-request rejections travel inside
/// `HttpResponse` instead.
#[derive(Debug)]
pub enum PepError {
    Io(String),
    Json(String),
    Http(String),
    Policy(String),
}

impl PepError {
    /// The carried description.
    pub fn message(&self) -> (r: &str)
        ensures
            r@ == match self {
                PepError::Io(m) => m@,
                PepError::Json(m) => m@,
                PepError::Http(m) => m@,
                PepError::Policy(m) => m@,
            },
    {
        match self {
            PepError::Io(m) => m.as_str(),
            PepError::Json(m) => m.as_str(),
            PepError::Http(m) => m.as_str(),
            PepError::Policy(m) => m.as_str(),
        }
    }
}

/// The shape of every rejection envelope: no upstream status, no headers,
/// no body, and the given error code and message.
pub open spec fn spec_error_response(r: HttpResponse, code: Seq<char>, message: Seq<char>) -> bool {
    &&& r.status == 0
    &&& r.headers@.len() == 0
    &&& r.body_base64 is None
    &&& match r.error {
        Some(e) => e.code@ == code && e.message@ == message,
        None => false,
    }
}

/// Builds the rejection envelope for one error code and message.
pub fn error_response(code: &str, message: &str) -> (r: HttpResponse)
    ensures
        spec_error_response(r, code@, message@),
{
    HttpResponse {
        status: 0,
        headers: Vec::new(),
        body_base64: None,
        error: Some(ErrorEnvelope { code: code.to_owned(), message: message.to_owned() }),
    }
}

} // verus!
