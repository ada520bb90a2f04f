//! The errors that the client of the challenges service reports.
use vstd::prelude::*;

verus! {

/// An error response that any endpoint may return.
#[derive(PartialEq, Eq, Clone, Debug)]
pub enum CommonError {
    /// 422 Unprocessable Content
    UnprocessableContent(String),
    /// 500 Internal Server Error
    InternalServerError,
    /// 401 Unauthorized
    Unauthorized,
    /// 403 User is not verified
    Unverified,
    /// 403 Forbidden
    Forbidden,
}

/// The empty body of a successful response without content.
pub struct Success {}

/// What an error response is understood as.
pub enum ResponseError<E, V> {
    /// An error response that any endpoint may return.
    CommonError(CommonError),
    /// An error response of the called endpoint.
    EndpointError(E),
    /// A body that is neither.
    UnknownError(V),
}

/// Understand an error response, given how its body reads as a common error
/// and as an error of the endpoint: a common error first, then an error of
/// the endpoint, and otherwise the body as it is.
pub fn parse_error<E, V>(common: Option<CommonError>, endpoint: Option<E>, body: V) -> (error: ResponseError<E, V>)
    ensures
        match error {
            ResponseError::CommonError(c) => common == Some(c),
            ResponseError::EndpointError(e) => common is None && endpoint == Some(e),
            ResponseError::UnknownError(b) => common is None && endpoint is None && b == body,
        },
{
    match common {
        Some(c) => ResponseError::CommonError(c),
        None => match endpoint {
            Some(e) => ResponseError::EndpointError(e),
            None => ResponseError::UnknownError(body),
        },
    }
}

} // verus!
