//! The errors that the proxy answers a request with, their messages and the
//! HTTP responses they become.
use vstd::prelude::*;

verus! {

/// An error that ends the handling of a request.
#[derive(Debug, Clone)]
pub enum ProxyError {
    CircuitBreakerOpen,
    TooManyRequests(String),
    Timeout,
    InternalServerError(String),
    BadRequest(String),
    NotFound(String),
    ServiceUnavailable(String),
    Unauthorized(String),
    Forbidden(String),
}

/// The status and body of the response that answers an error.
#[derive(Debug, Clone)]
pub struct ErrorResponse {
    pub status: u16,
    pub body: String,
}

/// The message of an error.
pub open spec fn message_of(e: ProxyError) -> Seq<char> {
    match e {
        ProxyError::CircuitBreakerOpen => "Service Unavailable: Circuit Breaker is Open"@,
        ProxyError::TooManyRequests(_) => "Too Many Requests: Rate limit exceeded"@,
        ProxyError::Timeout => "Gateway Timeout"@,
        ProxyError::InternalServerError(m) => "Internal Server Error: "@ + m@,
        ProxyError::BadRequest(m) => "Bad Request: "@ + m@,
        ProxyError::NotFound(m) => "Not Found: "@ + m@,
        ProxyError::ServiceUnavailable(m) => "Service Unavailable: "@ + m@,
        ProxyError::Unauthorized(m) => "Unauthorized: "@ + m@,
        ProxyError::Forbidden(m) => "Forbidden: "@ + m@,
    }
}

/// The HTTP status that answers an error.
pub open spec fn status_of(e: ProxyError) -> u16 {
    match e {
        ProxyError::CircuitBreakerOpen => 503,
        ProxyError::TooManyRequests(_) => 429,
        ProxyError::Timeout => 504,
        ProxyError::InternalServerError(_) => 500,
        ProxyError::BadRequest(_) => 400,
        ProxyError::NotFound(_) => 404,
        ProxyError::ServiceUnavailable(_) => 503,
        ProxyError::Unauthorized(_) => 401,
        ProxyError::Forbidden(_) => 403,
    }
}

/// The body of the response to an error: the limit's own message for a
/// refused rate, the error's message otherwise.
pub open spec fn body_of(e: ProxyError) -> Seq<char> {
    match e {
        ProxyError::TooManyRequests(m) => m@,
        _ => message_of(e),
    }
}

fn owned(s: &str) -> (r: String)
    ensures
        r@ == s@,
{
    s.to_owned()
}

fn prefixed(p: &str, m: &String) -> (r: String)
    ensures
        r@ == p@ + m@,
{
    owned(p).concat(m.as_str())
}

impl ProxyError {
    /// The message of the error.
    pub fn message(&self) -> (r: String)
        ensures
            r@ == message_of(*self),
    {
        match self {
            ProxyError::CircuitBreakerOpen => owned("Service Unavailable: Circuit Breaker is Open"),
            ProxyError::TooManyRequests(_) => owned("Too Many Requests: Rate limit exceeded"),
            ProxyError::Timeout => owned("Gateway Timeout"),
            ProxyError::InternalServerError(m) => prefixed("Internal Server Error: ", m),
            ProxyError::BadRequest(m) => prefixed("Bad Request: ", m),
            ProxyError::NotFound(m) => prefixed("Not Found: ", m),
            ProxyError::ServiceUnavailable(m) => prefixed("Service Unavailable: ", m),
            ProxyError::Unauthorized(m) => prefixed("Unauthorized: ", m),
            ProxyError::Forbidden(m) => prefixed("Forbidden: ", m),
        }
    }

    /// The HTTP status that answers the error.
    pub fn status_code(&self) -> (r: u16)
        ensures
            r == status_of(*self),
    {
        match self {
            ProxyError::CircuitBreakerOpen => 503,
            ProxyError::TooManyRequests(_) => 429,
            ProxyError::Timeout => 504,
            ProxyError::InternalServerError(_) => 500,
            ProxyError::BadRequest(_) => 400,
            ProxyError::NotFound(_) => 404,
            ProxyError::ServiceUnavailable(_) => 503,
            ProxyError::Unauthorized(_) => 401,
            ProxyError::Forbidden(_) => 403,
        }
    }

    /// The response that answers the error.
    pub fn into_response(self) -> (r: ErrorResponse)
        ensures
            r.status == status_of(self),
            r.body@ == body_of(self),
    {
        let status = self.status_code();
        match self {
            ProxyError::TooManyRequests(m) => ErrorResponse { status, body: m },
            _ => {
                let body = self.message();
                ErrorResponse { status, body }
            },
        }
    }
}

/// Each error is answered with its HTTP status: 503 for an open breaker and
/// an unavailable service, 429 for a refused rate, 504 for a timeout, 500 for
/// an internal error, 400 for a bad request, 404 when nothing is found, 401
/// for failed authentication and 403 for a forbidden request. The body is
/// the error's kind followed by its message, except for a refused rate,
/// whose body is the limit's own message.
pub proof fn law_error_answers(m: String)
    ensures
        status_of(ProxyError::CircuitBreakerOpen) == 503,
        body_of(ProxyError::CircuitBreakerOpen) == "Service Unavailable: Circuit Breaker is Open"@,
        status_of(ProxyError::TooManyRequests(m)) == 429,
        body_of(ProxyError::TooManyRequests(m)) == m@,
        status_of(ProxyError::Timeout) == 504,
        body_of(ProxyError::Timeout) == "Gateway Timeout"@,
        status_of(ProxyError::InternalServerError(m)) == 500,
        body_of(ProxyError::InternalServerError(m)) == "Internal Server Error: "@ + m@,
        status_of(ProxyError::BadRequest(m)) == 400,
        body_of(ProxyError::BadRequest(m)) == "Bad Request: "@ + m@,
        status_of(ProxyError::NotFound(m)) == 404,
        body_of(ProxyError::NotFound(m)) == "Not Found: "@ + m@,
        status_of(ProxyError::ServiceUnavailable(m)) == 503,
        body_of(ProxyError::ServiceUnavailable(m)) == "Service Unavailable: "@ + m@,
        status_of(ProxyError::Unauthorized(m)) == 401,
        body_of(ProxyError::Unauthorized(m)) == "Unauthorized: "@ + m@,
        status_of(ProxyError::Forbidden(m)) == 403,
        body_of(ProxyError::Forbidden(m)) == "Forbidden: "@ + m@,
{
}

} // verus!
