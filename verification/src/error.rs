use vstd::prelude::*;
use crate::text::{dec, push_decimal, push_str};

verus! {

/// An error that an API handler answers with.
#[derive(Debug, Clone, PartialEq, Eq)]
pub enum ApiError {
    NotFound(String),
    BadRequest(String),
    InternalServerError(String),
    Forbidden(String),
    Unauthorized,
}

/// The JSON body of an error response.
#[derive(Debug, Clone, PartialEq, Eq)]
pub struct ErrorBody {
    pub error: String,
}

/// The HTTP status code that answers `e`.
pub open spec fn spec_status_code(e: ApiError) -> u16 {
    match e {
        ApiError::Unauthorized => 401,
        ApiError::Forbidden(_) => 403,
        ApiError::NotFound(_) => 404,
        ApiError::BadRequest(_) => 400,
        ApiError::InternalServerError(_) => 500,
    }
}

/// The text of the error body that answers `e`: its message, or
/// `Unauthorized`.
pub open spec fn spec_body_text(e: ApiError) -> Seq<char> {
    match e {
        ApiError::Unauthorized => "Unauthorized"@,
        ApiError::Forbidden(m) => m@,
        ApiError::NotFound(m) => m@,
        ApiError::BadRequest(m) => m@,
        ApiError::InternalServerError(m) => m@,
    }
}

/// The human-readable description of `e`.
pub open spec fn spec_message(e: ApiError) -> Seq<char> {
    match e {
        ApiError::NotFound(m) => "Not found: "@ + m@,
        ApiError::BadRequest(m) => "Bad request: "@ + m@,
        ApiError::InternalServerError(m) => "Internal server error: "@ + m@,
        ApiError::Forbidden(m) => "Forbidden: "@ + m@,
        ApiError::Unauthorized => "Unauthorized"@,
    }
}

impl ApiError {
    /// The status code and JSON body of the response for this error.
    pub fn into_response(self) -> (r: (u16, ErrorBody))
        ensures
            r.0 == spec_status_code(self),
            r.1.error@ == spec_body_text(self),
    {
        match self {
            ApiError::Unauthorized => (401, ErrorBody { error: String::from_str("Unauthorized") }),
            ApiError::Forbidden(msg) => (403, ErrorBody { error: msg }),
            ApiError::NotFound(msg) => (404, ErrorBody { error: msg }),
            ApiError::BadRequest(msg) => (400, ErrorBody { error: msg }),
            ApiError::InternalServerError(msg) => (500, ErrorBody { error: msg }),
        }
    }

    /// The description of this error, as its `Display` prints it.
    pub fn message(&self) -> (r: String)
        ensures
            r@ == spec_message(*self),
    {
        match self {
            ApiError::NotFound(msg) => {
                let mut s = String::from_str("Not found: ");
                push_str(&mut s, msg.as_str());
                s
            },
            ApiError::BadRequest(msg) => {
                let mut s = String::from_str("Bad request: ");
                push_str(&mut s, msg.as_str());
                s
            },
            ApiError::InternalServerError(msg) => {
                let mut s = String::from_str("Internal server error: ");
                push_str(&mut s, msg.as_str());
                s
            },
            ApiError::Forbidden(msg) => {
                let mut s = String::from_str("Forbidden: ");
                push_str(&mut s, msg.as_str());
                s
            },
            ApiError::Unauthorized => String::from_str("Unauthorized"),
        }
    }
}

/// The error a client reports for an unsuccessful response with `status`
/// and nothing more to say.
pub fn http_status_error(status: u16) -> (r: String)
    ensures
        r@ == "HTTP "@ + dec(status as nat),
{
    let mut s = String::from_str("HTTP ");
    push_decimal(&mut s, status as u64);
    s
}

/// The error a client reports for an unsuccessful response with `status`:
/// the `error` text of its JSON body when it has one, else the status.
pub fn response_error_text(status: u16, body_error: Option<String>) -> (r: String)
    ensures
        match body_error {
            Some(e) => r@ == e@,
            None => r@ == "HTTP "@ + dec(status as nat),
        },
{
    match body_error {
        Some(e) => e,
        None => http_status_error(status),
    }
}

} // verus!
