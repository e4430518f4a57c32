//! A verified record-management library for students, courses, and the
//! enrollment relation between them.
//!
//! The store keeps three tables — students, courses, enrollments — behind a
//! well-formedness invariant: identifiers, emails, and course names are
//! unique, at most one enrollment row exists per (student, course) pair, and
//! every enrollment refers to an existing student and course.  Repository
//! operations and the request handlers built on them are specified against a
//! mathematical model of the store, so that existence checks, duplicate
//! handling, and error reporting are proved rather than tested alone.

pub mod api;
pub mod config;
pub mod db;
pub mod model;
mod util;
