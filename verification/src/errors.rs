//! The error kinds that reach the transport boundary, and their HTTP form.

use vstd::prelude::*;

verus! {

/// Why a request was turned down. Every kind is terminal for the request.
#[derive(Debug, Clone, Copy, PartialEq, Eq, Structural)]
pub enum UserError {
    /// Storage or serialization failed.
    Internal,
    /// The requested token or ban does not exist.
    NotFound,
    /// The input is malformed.
    BadRequest,
    /// The route does not answer to the request's method.
    MethodNotAllowed,
    /// The bearer secret is missing, empty, unknown or retired.
    Unauthorized,
    /// The token is valid but its tier is too low.
    Forbidden,
    /// The antiflood cooldown is still running; `until` is its end, in
    /// seconds since the Unix epoch.
    TooManyRequests { until: i64 },
}

/// The fields of the JSON object that describes an error to the caller.
#[derive(Debug, Clone, Copy, PartialEq, Eq)]
pub struct ErrorBody {
    /// The HTTP status code.
    pub code: u16,
    /// The reason phrase that goes with the code, if it has one.
    pub error: Option<&'static str>,
    /// The end of the cooldown, present for `TooManyRequests` only.
    pub until: Option<i64>,
}

/// The canonical reason phrase of an HTTP status code, as the `http` crate
/// tabulates it; `None` for a code without one.
pub uninterp spec fn reason_phrase(code: u16) -> Option<Seq<char>>;

/// The reason phrases of the seven status codes that stand for an error
/// kind, as the table of the `http` crate gives them.
pub open spec fn error_phrase(code: u16) -> Option<Seq<char>> {
    if code == 400 {
        Some("Bad Request"@)
    } else if code == 401 {
        Some("Unauthorized"@)
    } else if code == 403 {
        Some("Forbidden"@)
    } else if code == 404 {
        Some("Not Found"@)
    } else if code == 405 {
        Some("Method Not Allowed"@)
    } else if code == 429 {
        Some("Too Many Requests"@)
    } else if code == 500 {
        Some("Internal Server Error"@)
    } else {
        None
    }
}

/// The view of a phrase that may be missing.
pub open spec fn phrase_view(phrase: Option<&'static str>) -> Option<Seq<char>> {
    match phrase {
        Some(text) => Some(text@),
        None => None,
    }
}

/// `http::StatusCode::from_u16` followed by `StatusCode::canonical_reason`.
///
/// Trusted: the phrase depends on the code alone, so it is the value of
/// `reason_phrase` at that code; a code that `from_u16` refuses has none.
/// For the seven codes of the error kinds the phrase is the one that the
/// crate's table holds, which `error_phrase` repeats.
#[verifier::external_body]
fn canonical_reason(code: u16) -> (phrase: Option<&'static str>)
    ensures
        phrase_view(phrase) == reason_phrase(code),
        error_phrase(code) is Some ==> phrase_view(phrase) == error_phrase(code),
{
    match http::StatusCode::from_u16(code) {
        Ok(status) => status.canonical_reason(),
        Err(_) => None,
    }
}

impl UserError {
    /// The HTTP status code that stands for the error kind.
    pub open spec fn http_status(self) -> u16 {
        match self {
            UserError::Internal => 500,
            UserError::NotFound => 404,
            UserError::BadRequest => 400,
            UserError::MethodNotAllowed => 405,
            UserError::Unauthorized => 401,
            UserError::Forbidden => 403,
            UserError::TooManyRequests { .. } => 429,
        }
    }

    /// The moment a throttled caller may try again, for `TooManyRequests`.
    pub open spec fn retry_at(self) -> Option<i64> {
        match self {
            UserError::TooManyRequests { until } => Some(until),
            _ => None,
        }
    }

    /// Whether the body describes the error: it gives the status code of the
    /// kind, the reason phrase of that code and, for a running cooldown, its
    /// end.
    pub open spec fn described_by(self, body: ErrorBody) -> bool {
        &&& body.code == self.http_status()
        &&& body.until == self.retry_at()
        &&& phrase_view(body.error) == error_phrase(self.http_status())
        &&& body.error is Some
    }

    /// Maps the error kind to its HTTP status code.
    pub fn status_code(&self) -> (code: u16)
        ensures
            code == self.http_status(),
    {
        match self {
            UserError::Internal => 500,
            UserError::NotFound => 404,
            UserError::BadRequest => 400,
            UserError::MethodNotAllowed => 405,
            UserError::Unauthorized => 401,
            UserError::Forbidden => 403,
            UserError::TooManyRequests { .. } => 429,
        }
    }

    /// Describes the error for the caller: the status code, its reason
    /// phrase and, for a running cooldown, its end. Nothing of the cause of
    /// an internal failure is exposed.
    pub fn to_json(&self) -> (body: ErrorBody)
        ensures
            self.described_by(body),
    {
        let code = self.status_code();
        let until = match self {
            UserError::TooManyRequests { until } => Some(*until),
            _ => None,
        };
        ErrorBody { code, error: canonical_reason(code), until }
    }
}

} // verus!
