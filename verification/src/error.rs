//! The errors that request handlers answer with.
use vstd::prelude::*;

verus! {

/// An error answered to a request: its kind decides the HTTP status, the
/// text is the message shown to the caller.
#[derive(Debug, Clone)]
pub enum AppError {
    BadRequest(String),
    Unauthorized(String),
    Forbidden(String),
    NotFound(String),
    Internal(String),
}

impl AppError {
    pub open spec fn spec_status(&self) -> u16 {
        match self {
            AppError::BadRequest(_) => 400,
            AppError::Unauthorized(_) => 401,
            AppError::Forbidden(_) => 403,
            AppError::NotFound(_) => 404,
            AppError::Internal(_) => 500,
        }
    }

    /// The HTTP status code this error is answered with.
    pub fn status(&self) -> (res: u16)
        ensures
            res == self.spec_status(),
    {
        match self {
            AppError::BadRequest(_) => 400,
            AppError::Unauthorized(_) => 401,
            AppError::Forbidden(_) => 403,
            AppError::NotFound(_) => 404,
            AppError::Internal(_) => 500,
        }
    }

    /// Whether this is a `BadRequest` carrying exactly `msg`.
    pub open spec fn is_bad_request(&self, msg: Seq<char>) -> bool {
        self matches AppError::BadRequest(m) && m@ == msg
    }

    /// Whether this is a `NotFound` carrying exactly `msg`.
    pub open spec fn is_not_found(&self, msg: Seq<char>) -> bool {
        self matches AppError::NotFound(m) && m@ == msg
    }

    /// Whether this is a `Forbidden` carrying exactly `msg`.
    pub open spec fn is_forbidden(&self, msg: Seq<char>) -> bool {
        self matches AppError::Forbidden(m) && m@ == msg
    }

    /// Whether this is an `Unauthorized` carrying exactly `msg`.
    pub open spec fn is_unauthorized(&self, msg: Seq<char>) -> bool {
        self matches AppError::Unauthorized(m) && m@ == msg
    }
}

/// A `BadRequest` with the given message.
pub fn bad_request(msg: &str) -> (res: AppError)
    ensures
        res.is_bad_request(msg@),
{
    AppError::BadRequest(String::from_str(msg))
}

/// A `NotFound` with the given message.
pub fn not_found(msg: &str) -> (res: AppError)
    ensures
        res.is_not_found(msg@),
{
    AppError::NotFound(String::from_str(msg))
}

/// A `Forbidden` with the given message.
pub fn forbidden(msg: &str) -> (res: AppError)
    ensures
        res.is_forbidden(msg@),
{
    AppError::Forbidden(String::from_str(msg))
}

/// An `Unauthorized` with the given message.
pub fn unauthorized(msg: &str) -> (res: AppError)
    ensures
        res.is_unauthorized(msg@),
{
    AppError::Unauthorized(String::from_str(msg))
}

} // verus!
