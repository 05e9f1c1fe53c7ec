//! The errors that a request can end in, and the body that reports each.

use vstd::prelude::*;

verus! {

/// The body of an error response: what went wrong, and the HTTP status.
#[derive(Debug)]
pub struct ErrorResponse {
    pub error: String,
    pub status: u16,
}

/// The resource does not exist.
#[derive(Debug)]
pub struct NotFound;

/// The server failed; the text says how.
#[derive(Debug)]
pub struct InternalServerError(pub String);

/// The request did not prove that it may be served, or asked for a paste
/// that is not the sender's.
#[derive(Debug)]
pub struct Unauthorized;

/// The request lacks a well-formed device code.
#[derive(Debug)]
pub struct BadRequest;

impl NotFound {
    /// The body that reports this error.
    pub fn response(&self) -> (body: ErrorResponse)
        ensures
            body.error@ == "Not Found"@,
            body.status == 404,
    {
        ErrorResponse { error: "Not Found".to_owned(), status: 404 }
    }
}

impl InternalServerError {
    /// The body that reports this error. It does not disclose the cause.
    pub fn response(&self) -> (body: ErrorResponse)
        ensures
            body.error@ == "Internal Server Error"@,
            body.status == 500,
    {
        ErrorResponse { error: "Internal Server Error".to_owned(), status: 500 }
    }
}

impl Unauthorized {
    /// The body that reports this error.
    pub fn response(&self) -> (body: ErrorResponse)
        ensures
            body.error@ == "Unauthorized"@,
            body.status == 401,
    {
        ErrorResponse { error: "Unauthorized".to_owned(), status: 401 }
    }
}

impl BadRequest {
    /// The body that reports this error.
    pub fn response(&self) -> (body: ErrorResponse)
        ensures
            body.error@ == "Bad Request"@,
            body.status == 400,
    {
        ErrorResponse { error: "Bad Request".to_owned(), status: 400 }
    }
}

/// How a request can fail.
#[derive(Debug, Clone, Copy, PartialEq, Eq, Structural)]
pub enum RequestError {
    /// The request lacks a well-formed device code.
    BadRequest,
    /// The request did not prove that it may be served, or asked for a
    /// paste that is not the sender's.
    Unauthorized,
    /// The resource does not exist.
    NotFound,
    /// The server failed.
    InternalServerError,
}

impl RequestError {
    /// The body that reports this error.
    pub fn response(&self) -> (body: ErrorResponse)
        ensures
            body.status == match self {
                RequestError::BadRequest => 400u16,
                RequestError::Unauthorized => 401u16,
                RequestError::NotFound => 404u16,
                RequestError::InternalServerError => 500u16,
            },
            body.error@ == match self {
                RequestError::BadRequest => "Bad Request"@,
                RequestError::Unauthorized => "Unauthorized"@,
                RequestError::NotFound => "Not Found"@,
                RequestError::InternalServerError => "Internal Server Error"@,
            },
    {
        match self {
            RequestError::BadRequest => BadRequest.response(),
            RequestError::Unauthorized => Unauthorized.response(),
            RequestError::NotFound => NotFound.response(),
            RequestError::InternalServerError => InternalServerError(String::new()).response(),
        }
    }
}

} // verus!
