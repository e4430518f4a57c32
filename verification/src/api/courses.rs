//! Request and response types, and handler logic, for the course endpoints.

use vstd::prelude::*;

use crate::api::errors::ApiError;
use crate::db::courses::{Course, NewCourse};
use crate::db::Db;
use crate::model::{
    has_course_name, spec_create_course, spec_get_course, CourseModel, NewCourseModel,
};

verus! {

/// The query of `GET /courses`.
#[derive(Debug)]
pub struct GetCourseRequest {
    pub name: String,
}

/// The body of `POST /courses`.
#[derive(Debug, Clone)]
pub struct CreateCourseRequest {
    pub name: String,
    pub course_desc: Option<String>,
}

/// The body returned for a course row.
#[derive(Debug, PartialEq)]
pub struct CourseResponse {
    pub id: i32,
    pub name: String,
}

/// The model of a course response: the row's identifier and name.
#[verifier::ext_equal]
pub ghost struct CourseResponseModel {
    pub id: int,
    pub name: Seq<char>,
}

impl View for CourseResponse {
    type V = CourseResponseModel;

    open spec fn view(&self) -> CourseResponseModel {
        CourseResponseModel { id: self.id as int, name: self.name@ }
    }
}

impl From<Course> for CourseResponse {
    /// The response carries the row's identifier and name; the description
    /// is not exposed.
    fn from(course: Course) -> (r: Self) {
        CourseResponse { id: course.id, name: course.name }
    }
}

impl vstd::std_specs::convert::FromSpecImpl<Course> for CourseResponse {
    open spec fn obeys_from_spec() -> bool {
        true
    }

    open spec fn from_spec(course: Course) -> Self {
        CourseResponse { id: course.id, name: course.name }
    }
}

/// The executable response carries the same identifier and name as the model
/// result.
pub open spec fn course_response_matches(
    r: Result<CourseResponse, ApiError>,
    s: Result<CourseModel, ApiError>,
) -> bool {
    match (r, s) {
        (Ok(resp), Ok(row_model)) => resp@.id == row_model.id && resp@.name == row_model.name,
        (Err(e), Err(e_model)) => e == e_model,
        _ => false,
    }
}

/// The model row a creation request asks for.
pub open spec fn requested_course_row(
    name: Seq<char>,
    course_desc: Option<Seq<char>>,
) -> NewCourseModel {
    NewCourseModel { name, course_desc }
}

/// Handles `GET /courses?name=N`: fails with `NotFound` exactly when no
/// course carries the name.
pub fn get_course(db: &Db, params: &GetCourseRequest) -> (r: Result<CourseResponse, ApiError>)
    requires
        db@.wf(),
    ensures
        course_response_matches(r, spec_get_course(db@, params.name@)),
        !has_course_name(db@, params.name@) ==> r == Err::<CourseResponse, ApiError>(
            ApiError::NotFound,
        ),
{
    match db.find_course(params.name.as_str()) {
        Ok(course) => Ok(CourseResponse::from(course)),
        Err(e) => Err(e),
    }
}

/// Handles `POST /courses`: a taken name fails with `UniqueViolation`;
/// otherwise the course is created and the returned record carries the
/// requested name.
pub fn create_course(db: &mut Db, req: CreateCourseRequest) -> (r: Result<CourseResponse, ApiError>)
    requires
        old(db)@.wf(),
    ensures
        final(db)@.wf(),
        ({
            let row = requested_course_row(req.name@, req.course_desc.deep_view());
            &&& final(db)@ == spec_create_course(old(db)@, row).0
            &&& course_response_matches(r, spec_create_course(old(db)@, row).1)
        }),
        !has_course_name(old(db)@, req.name@) && old(db)@.next_course_id < i32::MAX ==> (
        r matches Ok(resp) && resp@.name == req.name@),
        has_course_name(old(db)@, req.name@) ==> r == Err::<CourseResponse, ApiError>(
            ApiError::UniqueViolation,
        ) && final(db)@ == old(db)@,
{
    match db.insert_course(NewCourse::from(req)) {
        Ok(course) => Ok(CourseResponse::from(course)),
        Err(e) => Err(e),
    }
}

} // verus!
