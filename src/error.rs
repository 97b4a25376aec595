use vstd::prelude::*;

verus! {

/// The HTTP status that a failed request answers with.
pub const INTERNAL_SERVER_ERROR: u16 = 500;

/// A failure surfaced to a caller, carrying the rendered report.
#[derive(Debug, Clone)]
pub struct AppError {
    pub message: String,
}

impl AppError {
    pub fn new(message: String) -> (r: AppError)
        ensures
            r.message == message,
    {
        AppError { message }
    }

    /// The status and body of the response for this error: an internal
    /// server error whose body is the rendered report.
    pub fn into_response_parts(self) -> (r: (u16, String))
        ensures
            r.0 == INTERNAL_SERVER_ERROR,
            r.1 == self.message,
    {
        (INTERNAL_SERVER_ERROR, self.message)
    }
}

} // verus!
