//! Request types and handler logic for the enrollment endpoints.

use vstd::prelude::*;

use crate::api::errors::ApiError;
use crate::db::courses::Course;
use crate::db::students::Student;
use crate::db::students_courses::StudentCourse;
use crate::db::Db;
use crate::model::{
    courses_for_student, has_course_name, has_student_email, lemma_no_enrollments_no_courses,
    spec_courses_attended_by_student, spec_enroll, spec_students_in_course, spec_unenroll,
    student_for_email, CourseModel, StudentModel,
};

verus! {

/// The query of `GET /students-courses/student`.
#[derive(Debug)]
pub struct GetStudentCourseByStudentRequest {
    pub student_email: String,
}

/// The query of `GET /students-courses/course`.
#[derive(Debug)]
pub struct GetStudentCourseByCourseRequest {
    pub course_name: String,
}

/// The body of `POST /students-courses`.
#[derive(Debug)]
pub struct CreateStudentCourseRequest {
    pub student_email: String,
    pub course_name: String,
}

/// The body of `DELETE /students-courses`.
#[derive(Debug)]
pub struct DeleteStudentCourseRequest {
    pub student_email: String,
    pub course_name: String,
}

/// The names of the given course rows, in order.
pub open spec fn course_names_of(rows: Seq<CourseModel>) -> Seq<Seq<char>> {
    rows.map_values(|c: CourseModel| c.name)
}

/// The emails of the given student rows, in order.
pub open spec fn student_emails_of(rows: Seq<StudentModel>) -> Seq<Seq<char>> {
    rows.map_values(|s: StudentModel| s.email)
}

/// The executable result carries the same enrollment row as the model
/// result.
pub open spec fn enroll_result_matches(
    r: Result<StudentCourse, ApiError>,
    s: Result<crate::model::StudentCourseModel, ApiError>,
) -> bool {
    match (r, s) {
        (Ok(row), Ok(row_model)) => row@ == row_model,
        (Err(e), Err(e_model)) => e == e_model,
        _ => false,
    }
}

/// The names of the given course rows, in order.
fn course_names(courses: &Vec<Course>) -> (names: Vec<String>)
    ensures
        names.deep_view() == course_names_of(courses.deep_view()),
{
    let mut names: Vec<String> = Vec::new();
    let mut i: usize = 0;
    proof {
        assert(names.deep_view() =~= course_names_of(courses.deep_view().subrange(0, 0)));
    }
    while i < courses.len()
        invariant
            i <= courses@.len(),
            names.deep_view() == course_names_of(courses.deep_view().subrange(0, i as int)),
        decreases courses@.len() - i,
    {
        let ghost names_before = names.deep_view();
        names.push(courses[i].name.clone());
        proof {
            assert(names.deep_view() =~= names_before.push(courses@[i as int]@.name));
            assert forall|j: int| 0 <= j < i + 1 implies names.deep_view()[j]
                == course_names_of(courses.deep_view().subrange(0, i + 1))[j] by {
                assert(courses.deep_view().subrange(0, i + 1)[j] == courses@[j]@);
            }
            assert(names.deep_view() =~= course_names_of(
                courses.deep_view().subrange(0, i + 1),
            ));
        }
        i = i + 1;
    }
    proof {
        assert(courses.deep_view().subrange(0, courses@.len() as int) =~= courses.deep_view());
    }
    names
}

/// The emails of the given student rows, in order.
fn student_emails(students: &Vec<Student>) -> (emails: Vec<String>)
    ensures
        emails.deep_view() == student_emails_of(students.deep_view()),
{
    let mut emails: Vec<String> = Vec::new();
    let mut i: usize = 0;
    proof {
        assert(emails.deep_view() =~= student_emails_of(students.deep_view().subrange(0, 0)));
    }
    while i < students.len()
        invariant
            i <= students@.len(),
            emails.deep_view() == student_emails_of(students.deep_view().subrange(0, i as int)),
        decreases students@.len() - i,
    {
        let ghost emails_before = emails.deep_view();
        emails.push(students[i].email.clone());
        proof {
            assert(emails.deep_view() =~= emails_before.push(students@[i as int]@.email));
            assert forall|j: int| 0 <= j < i + 1 implies emails.deep_view()[j]
                == student_emails_of(students.deep_view().subrange(0, i + 1))[j] by {
                assert(students.deep_view().subrange(0, i + 1)[j] == students@[j]@);
            }
            assert(emails.deep_view() =~= student_emails_of(
                students.deep_view().subrange(0, i + 1),
            ));
        }
        i = i + 1;
    }
    proof {
        assert(students.deep_view().subrange(0, students@.len() as int) =~= students.deep_view());
    }
    emails
}

/// Handles `POST /students-courses`: the student is resolved first, then the
/// course — each failing with `NotFound` and leaving the store untouched —
/// and only then is the enrollment row inserted, which fails with
/// `UniqueViolation` exactly when the pair already exists.
pub fn create_student_course(db: &mut Db, req: &CreateStudentCourseRequest) -> (r: Result<
    StudentCourse,
    ApiError,
>)
    requires
        old(db)@.wf(),
    ensures
        final(db)@.wf(),
        final(db)@ == spec_enroll(old(db)@, req.student_email@, req.course_name@).0,
        enroll_result_matches(r, spec_enroll(old(db)@, req.student_email@, req.course_name@).1),
        !has_student_email(old(db)@, req.student_email@) ==> r == Err::<StudentCourse, ApiError>(
            ApiError::NotFound,
        ) && final(db)@ == old(db)@,
        has_student_email(old(db)@, req.student_email@) && !has_course_name(
            old(db)@,
            req.course_name@,
        ) ==> r == Err::<StudentCourse, ApiError>(ApiError::NotFound) && final(db)@ == old(db)@,
{
    let student = match db.find_student(req.student_email.as_str()) {
        Ok(student) => student,
        Err(e) => {
            return Err(e);
        },
    };
    let course = match db.find_course(req.course_name.as_str()) {
        Ok(course) => course,
        Err(e) => {
            return Err(e);
        },
    };
    db.insert_enrollment(student.id, course.id)
}

/// Handles `DELETE /students-courses`: both parents are resolved as in
/// [`create_student_course`]; removing an absent pair is not an error and
/// reports a count of 0.
pub fn delete_student_course(db: &mut Db, req: &DeleteStudentCourseRequest) -> (r: Result<
    usize,
    ApiError,
>)
    requires
        old(db)@.wf(),
    ensures
        final(db)@.wf(),
        final(db)@ == spec_unenroll(old(db)@, req.student_email@, req.course_name@).0,
        r == spec_unenroll(old(db)@, req.student_email@, req.course_name@).1,
{
    let student = match db.find_student(req.student_email.as_str()) {
        Ok(student) => student,
        Err(e) => {
            return Err(e);
        },
    };
    let course = match db.find_course(req.course_name.as_str()) {
        Ok(course) => course,
        Err(e) => {
            return Err(e);
        },
    };
    Ok(db.remove_enrollment(student.id, course.id))
}

/// Handles `GET /students-courses/student?student_email=E`: fails with
/// `NotFound` exactly when the student is absent; otherwise the names of the
/// courses the student is enrolled in, in enrollment order — for a student
/// with no enrollments, the empty list rather than an error.
pub fn get_courses_for_student(db: &Db, params: &GetStudentCourseByStudentRequest) -> (r: Result<
    Vec<String>,
    ApiError,
>)
    requires
        db@.wf(),
    ensures
        match (r, spec_courses_attended_by_student(db@, params.student_email@)) {
            (Ok(names), Ok(rows)) => names.deep_view() == course_names_of(rows),
            (Err(e), Err(e_model)) => e == e_model,
            _ => false,
        },
        has_student_email(db@, params.student_email@) && (forall|i: int|
            0 <= i < db@.enrollments.len() ==> (#[trigger] db@.enrollments[i]).student_id
                != student_for_email(db@, params.student_email@).id) ==> (r matches Ok(names)
            && names@.len() == 0),
{
    let courses = match db.courses_attended(params.student_email.as_str()) {
        Ok(courses) => courses,
        Err(e) => {
            return Err(e);
        },
    };
    let names = course_names(&courses);
    proof {
        assert(names@.len() == names.deep_view().len());
        if has_student_email(db@, params.student_email@) && (forall|i: int|
            0 <= i < db@.enrollments.len() ==> (#[trigger] db@.enrollments[i]).student_id
                != student_for_email(db@, params.student_email@).id) {
            lemma_no_enrollments_no_courses(
                db@.enrollments,
                student_for_email(db@, params.student_email@).id,
            );
            assert(courses_for_student(
                db@,
                student_for_email(db@, params.student_email@).id,
            ).len() == 0);
            assert(names.deep_view().len() == 0);
        }
    }
    Ok(names)
}

/// Handles `GET /students-courses/course?course_name=N`: fails with
/// `NotFound` exactly when the course is absent; otherwise the emails of the
/// students enrolled in it, in enrollment order.
pub fn fetch_students_in_course(db: &Db, params: &GetStudentCourseByCourseRequest) -> (r: Result<
    Vec<String>,
    ApiError,
>)
    requires
        db@.wf(),
    ensures
        match (r, spec_students_in_course(db@, params.course_name@)) {
            (Ok(emails), Ok(rows)) => emails.deep_view() == student_emails_of(rows),
            (Err(e), Err(e_model)) => e == e_model,
            _ => false,
        },
{
    let students = match db.students_attending(params.course_name.as_str()) {
        Ok(students) => students,
        Err(e) => {
            return Err(e);
        },
    };
    Ok(student_emails(&students))
}

} // verus!
