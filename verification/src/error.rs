//! Errors of the HTTP boundary and of an indexing run.

use vstd::prelude::*;

verus! {

/// Why a request is turned away.
#[derive(Clone, Debug, PartialEq, Eq)]
pub enum ResponseError {
    /// The credential sent with the request opens no tier the route accepts.
    InvalidToken(String),
    /// A route parameter could not be read: its name, then the reason.
    BadParameter(String, String),
    /// No index is stored under this identifier.
    IndexNotFound(String),
}

/// The outcome of a request helper.
pub type SResult<T> = Result<T, ResponseError>;

impl ResponseError {
    /// The error for a route parameter `name` that could not be read.
    pub fn bad_parameter(name: &str, message: &str) -> (e: ResponseError)
        ensures
            e matches ResponseError::BadParameter(n, m) && n@ == name@ && m@ == message@,
    {
        ResponseError::BadParameter(name.to_owned(), message.to_owned())
    }

    /// The error for an index identifier under which nothing is stored.
    pub fn index_not_found(name: &str) -> (e: ResponseError)
        ensures
            e matches ResponseError::IndexNotFound(n) && n@ == name@,
    {
        ResponseError::IndexNotFound(name.to_owned())
    }
}

/// Why an indexing run stops without sealing its artifacts.
#[derive(Clone, Copy, Debug, PartialEq, Eq, Structural)]
pub enum IndexError {
    /// The record on this line of the input (counted from zero) could not be
    /// read as a product.
    Parse { line: usize },
    /// A key handed to the value store was not above the one before it.
    OrderingViolation,
}

} // verus!
