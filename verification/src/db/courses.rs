//! The course entity and its repository operations.

use vstd::prelude::*;

use crate::api::courses::CreateCourseRequest;
use crate::api::errors::ApiError;
use crate::db::Db;
use crate::model::{CourseModel, NewCourseModel};

verus! {

/// One course row.
#[derive(Debug, Clone, PartialEq)]
pub struct Course {
    pub id: i32,
    pub name: String,
    pub course_desc: Option<String>,
}

impl View for Course {
    type V = CourseModel;

    open spec fn view(&self) -> CourseModel {
        CourseModel {
            id: self.id as int,
            name: self.name@,
            course_desc: self.course_desc.deep_view(),
        }
    }
}

impl DeepView for Course {
    type V = CourseModel;

    open spec fn deep_view(&self) -> CourseModel {
        self.view()
    }
}

/// A course row to be inserted; the store assigns the identifier.
#[derive(Debug, Clone)]
pub struct NewCourse {
    pub name: String,
    pub course_desc: Option<String>,
}

impl View for NewCourse {
    type V = NewCourseModel;

    open spec fn view(&self) -> NewCourseModel {
        NewCourseModel { name: self.name@, course_desc: self.course_desc.deep_view() }
    }
}

/// Inserts a course row, per [`crate::model::spec_create_course`]: fails
/// with `UniqueViolation` exactly when the name is already taken.
pub fn create_course(db: &mut Db, new_course: NewCourse) -> (r: Result<Course, ApiError>)
    ensures
        final(db)@ == crate::model::spec_create_course(old(db)@, new_course@).0,
        crate::db::course_result_matches(
            r,
            crate::model::spec_create_course(old(db)@, new_course@).1,
        ),
        old(db)@.wf() ==> final(db)@.wf(),
{
    db.insert_course(new_course)
}

/// Fetches the course row carrying this name, per
/// [`crate::model::spec_get_course`]: fails with `NotFound` exactly when no
/// row matches.
pub fn get_course(db: &Db, name: &str) -> (r: Result<Course, ApiError>)
    requires
        db@.wf(),
    ensures
        crate::db::course_result_matches(r, crate::model::spec_get_course(db@, name@)),
{
    db.find_course(name)
}

/// Deletes the course row carrying this name, per
/// [`crate::model::spec_delete_course`]: reports how many rows were removed
/// (0 or 1); an absent row is not an error.
pub fn delete_course(db: &mut Db, course_name: &str) -> (r: Result<usize, ApiError>)
    requires
        old(db)@.wf(),
    ensures
        final(db)@ == crate::model::spec_delete_course(old(db)@, course_name@).0,
        r == crate::model::spec_delete_course(old(db)@, course_name@).1,
        final(db)@.wf(),
{
    db.remove_course(course_name)
}

impl From<CreateCourseRequest> for NewCourse {
    /// The row a creation request asks for.
    fn from(value: CreateCourseRequest) -> (row: Self) {
        NewCourse { name: value.name, course_desc: value.course_desc }
    }
}

impl vstd::std_specs::convert::FromSpecImpl<CreateCourseRequest> for NewCourse {
    open spec fn obeys_from_spec() -> bool {
        true
    }

    open spec fn from_spec(value: CreateCourseRequest) -> Self {
        NewCourse { name: value.name, course_desc: value.course_desc }
    }
}

impl Default for NewCourse {
    /// An empty row: no name, no description.
    fn default() -> (row: Self)
        ensures
            row@ == (NewCourseModel { name: Seq::<char>::empty(), course_desc: None }),
    {
        NewCourse { name: String::new(), course_desc: None }
    }
}

} // verus!
