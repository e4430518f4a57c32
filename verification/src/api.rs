//! Request/response types and handler logic for the HTTP surface.
//!
//! The functions here take plain request values and a store, perform the
//! validation and repository calls, and return either a response value or a
//! typed [`errors::ApiError`].  Parsing HTTP requests and serializing the
//! responses is left to the surrounding server code.

pub mod courses;
pub mod errors;
pub mod students;
pub mod students_courses;
pub mod utils;
