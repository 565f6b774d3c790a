//! What a route makes of its parameters: the outcome of reading one, or of
//! opening the index that one names, turned into a response.

use vstd::prelude::*;
use crate::error::ResponseError;
use crate::error::SResult;

verus! {

/// Turns the outcome of reading the route parameter `name` into a response:
/// the value itself, or a bad-parameter error that carries the reason.
pub fn url_param(name: &str, param: Result<String, String>) -> (r: SResult<String>)
    ensures
        match param {
            Ok(value) => r == Ok::<String, ResponseError>(value),
            Err(reason) => r matches Err(ResponseError::BadParameter(n, m)) && n@ == name@ && m@
                == reason@,
        },
{
    match param {
        Ok(value) => Ok(value),
        Err(reason) => Err(ResponseError::bad_parameter(name, reason.as_str())),
    }
}

/// Turns the outcome of opening the index `index_uid` into a response: the
/// index, or an index-not-found error that names the identifier.
pub fn index<I>(index_uid: String, opened: Option<I>) -> (r: SResult<I>)
    ensures
        match opened {
            Some(found) => r == Ok::<I, ResponseError>(found),
            None => r matches Err(ResponseError::IndexNotFound(n)) && n@ == index_uid@,
        },
{
    match opened {
        Some(found) => Ok(found),
        None => Err(ResponseError::index_not_found(index_uid.as_str())),
    }
}

/// Turns the outcome of reading the `documentId` route parameter into a
/// response. A failure is reported against the primary key, whatever the
/// reason was.
pub fn document_id(param: Result<String, String>) -> (r: SResult<String>)
    ensures
        match param {
            Ok(value) => r == Ok::<String, ResponseError>(value),
            Err(_) => r matches Err(ResponseError::BadParameter(n, m)) && n@ == "documentId"@
                && m@ == "primaryKey"@,
        },
{
    match param {
        Ok(value) => Ok(value),
        Err(_) => Err(ResponseError::bad_parameter("documentId", "primaryKey")),
    }
}

} // verus!
