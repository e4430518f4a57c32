//! The enrollment relation and its repository operations.

use vstd::prelude::*;

use crate::api::errors::ApiError;
use crate::db::Db;
use crate::db::courses::Course;
use crate::db::students::Student;
use crate::model::StudentCourseModel;

verus! {

/// One enrollment row: the composite key (student, course).
#[derive(Debug, Clone, Copy, PartialEq, Eq, Structural)]
pub struct StudentCourse {
    pub student_id: i32,
    pub course_id: i32,
}

impl View for StudentCourse {
    type V = StudentCourseModel;

    open spec fn view(&self) -> StudentCourseModel {
        StudentCourseModel { student_id: self.student_id as int, course_id: self.course_id as int }
    }
}

impl DeepView for StudentCourse {
    type V = StudentCourseModel;

    open spec fn deep_view(&self) -> StudentCourseModel {
        self.view()
    }
}

/// Lists the courses the student with this email is enrolled in, per
/// [`crate::model::spec_courses_attended_by_student`]: `NotFound` exactly
/// when the student is absent, otherwise the (possibly empty) join with the
/// course table, in enrollment order.
pub fn get_courses_attended_by_student(db: &Db, email: &str) -> (r: Result<Vec<Course>, ApiError>)
    requires
        db@.wf(),
    ensures
        crate::db::course_list_matches(
            r,
            crate::model::spec_courses_attended_by_student(db@, email@),
        ),
{
    db.courses_attended(email)
}

/// Lists the students enrolled in the course with this name, per
/// [`crate::model::spec_students_in_course`].
pub fn get_students_in_course(db: &Db, name: &str) -> (r: Result<Vec<Student>, ApiError>)
    requires
        db@.wf(),
    ensures
        crate::db::student_list_matches(r, crate::model::spec_students_in_course(db@, name@)),
{
    db.students_attending(name)
}

/// Inserts an enrollment row, per [`crate::model::spec_create_enrollment`]:
/// fails with `UniqueViolation` exactly when the pair already exists, and
/// with `InternalError` when either referenced entity is absent.
pub fn create_student_course(db: &mut Db, student_id: i32, course_id: i32) -> (r: Result<
    StudentCourse,
    ApiError,
>)
    ensures
        final(db)@ == crate::model::spec_create_enrollment(
            old(db)@,
            student_id as int,
            course_id as int,
        ).0,
        crate::db::enrollment_result_matches(
            r,
            crate::model::spec_create_enrollment(old(db)@, student_id as int, course_id as int).1,
        ),
        old(db)@.wf() ==> final(db)@.wf(),
{
    db.insert_enrollment(student_id, course_id)
}

/// Deletes the enrollment row for the pair, per
/// [`crate::model::spec_delete_enrollment`]: reports how many rows were
/// removed (0 or 1); an absent pair is not an error.
pub fn delete_student_course(db: &mut Db, student_id: i32, course_id: i32) -> (r: Result<
    usize,
    ApiError,
>)
    requires
        old(db)@.wf(),
    ensures
        final(db)@ == crate::model::spec_delete_enrollment(
            old(db)@,
            student_id as int,
            course_id as int,
        ).0,
        r == Ok::<usize, ApiError>(
            crate::model::spec_delete_enrollment(old(db)@, student_id as int, course_id as int).1,
        ),
        final(db)@.wf(),
{
    Ok(db.remove_enrollment(student_id, course_id))
}

} // verus!
