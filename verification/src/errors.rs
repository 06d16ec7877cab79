//! Domain failures and their mapping to HTTP responses.

use vstd::prelude::*;

verus! {

/// The single domain error: no todo with the given id exists in the store
/// at the time of lookup. Carries the id that was asked for.
#[derive(Debug)]
pub enum ApiError {
    TodoNotFound(String),
}

/// The body of the 404 response for a missing todo id.
pub open spec fn not_found_body(id: Seq<char>) -> Seq<char> {
    "Todo with id "@ + id + " not found"@
}

impl ApiError {
    /// Converts the error to an HTTP status code and plain-text body.
    /// A missing todo yields 404 with a body naming the missing id.
    pub fn into_response(self) -> (r: (u16, String))
        ensures
            r.0 == 404,
            (match self {
                ApiError::TodoNotFound(id) => r.1@ == not_found_body(id@),
            }),
    {
        match self {
            ApiError::TodoNotFound(id) => {
                let body = "Todo with id ".to_owned().concat(id.as_str()).concat(" not found");
                (404, body)
            }
        }
    }

    /// The id this error names.
    pub fn missing_id(&self) -> (r: &String)
        ensures
            (match self {
                ApiError::TodoNotFound(id) => r@ == id@,
            }),
    {
        match self {
            ApiError::TodoNotFound(id) => id,
        }
    }
}

} // verus!
