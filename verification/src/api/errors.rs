//! The error taxonomy shared by the repositories and the handlers, and its
//! mapping to HTTP status codes.

use vstd::prelude::*;

verus! {

/// The errors a repository operation or handler can surface.
///
/// `NotFound`: a requested entity, or a parent referenced by an enrollment
/// operation, does not exist.  `UniqueViolation`: a unique key (email, course
/// name, or enrollment pair) would be duplicated.  `BadClientData`: malformed
/// input, such as an invalid email format.  `InternalError`: any other store
/// failure, such as a broken referential constraint or an exhausted
/// identifier space.
#[derive(Clone, Copy, Debug, PartialEq, Eq, Structural)]
pub enum ApiError {
    InternalError,
    BadClientData,
    NotFound,
    UniqueViolation,
}

impl ApiError {
    /// The HTTP status code each error maps to.
    pub open spec fn spec_status_code(self) -> u16 {
        match self {
            ApiError::InternalError => 500,
            ApiError::BadClientData => 400,
            ApiError::NotFound => 404,
            ApiError::UniqueViolation => 409,
        }
    }

    /// Maps the error to its HTTP status code: 404 for `NotFound`, 409 for
    /// `UniqueViolation`, 400 for `BadClientData`, and 500 for
    /// `InternalError`.
    pub fn status_code(&self) -> (code: u16)
        ensures
            code == self.spec_status_code(),
    {
        match self {
            ApiError::InternalError => 500,
            ApiError::BadClientData => 400,
            ApiError::NotFound => 404,
            ApiError::UniqueViolation => 409,
        }
    }

    /// The response body text for each error.
    pub open spec fn spec_message(self) -> Seq<char> {
        match self {
            ApiError::InternalError => "Internal Server Error occurred"@,
            ApiError::BadClientData => "Bad Request"@,
            ApiError::NotFound => "Not Found"@,
            ApiError::UniqueViolation => "Conflict"@,
        }
    }

    /// A short, human-readable description of the error.
    pub fn message(&self) -> (text: &'static str)
        ensures
            text@ == self.spec_message(),
    {
        match self {
            ApiError::InternalError => "Internal Server Error occurred",
            ApiError::BadClientData => "Bad Request",
            ApiError::NotFound => "Not Found",
            ApiError::UniqueViolation => "Conflict",
        }
    }
}

} // verus!
