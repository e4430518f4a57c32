//! The executable store and its repository operations.
//!
//! [`Db`] holds the three tables as vectors.  Its view is the [`DbModel`] of
//! [`crate::model`], and every operation ensures that the new store and the
//! returned value are exactly those of the corresponding model transition.

use vstd::prelude::*;

use crate::api::errors::ApiError;
use crate::db::courses::{Course, NewCourse};
use crate::db::students::{NewStudent, Student};
use crate::db::students_courses::StudentCourse;
use crate::model::{
    spec_create_course, spec_create_student, spec_delete_course, spec_delete_student,
    spec_get_course, spec_get_student, CourseModel, DbModel, NewCourseModel, NewStudentModel,
    StudentModel,
};
use crate::model::{
    course_for_id, course_for_name, course_ids_for_student, course_index_for_name,
    courses_for_student, enrollment_index_for, has_course_id, has_course_name, has_enrollment,
    has_student_email, has_student_id, spec_courses_attended_by_student, spec_create_enrollment,
    spec_delete_enrollment, spec_students_in_course, student_for_email, student_for_id,
    student_ids_for_course, student_index_for_email, students_for_course, StudentCourseModel,
};
use crate::util::str_eq;

pub mod courses;
pub mod students;
pub mod students_courses;

verus! {

/// The store: three tables and the next free identifier of each entity table.
pub struct Db {
    students: Vec<Student>,
    courses: Vec<Course>,
    enrollments: Vec<StudentCourse>,
    next_student_id: i32,
    next_course_id: i32,
}

impl View for Db {
    type V = DbModel;

    closed spec fn view(&self) -> DbModel {
        DbModel {
            students: self.students.deep_view(),
            courses: self.courses.deep_view(),
            enrollments: self.enrollments.deep_view(),
            next_student_id: self.next_student_id as int,
            next_course_id: self.next_course_id as int,
        }
    }
}

/// The executable result carries the same value as the model result.
pub open spec fn student_result_matches(
    r: Result<Student, ApiError>,
    s: Result<StudentModel, ApiError>,
) -> bool {
    match (r, s) {
        (Ok(row), Ok(row_model)) => row@ == row_model,
        (Err(e), Err(e_model)) => e == e_model,
        _ => false,
    }
}

/// A field-by-field copy of a student row.
fn copy_student(source: &Student) -> (copy: Student)
    ensures
        copy == *source,
{
    Student {
        id: source.id,
        email: source.email.clone(),
        phone_number: match &source.phone_number {
            Some(p) => Some(p.clone()),
            None => None,
        },
        created_at: source.created_at,
        updated_at: source.updated_at,
    }
}

/// The index of the student row carrying this email, if any.
fn student_position(students: &Vec<Student>, email: &str) -> (r: Option<usize>)
    ensures
        match r {
            Some(i) => i < students@.len() && students@[i as int]@.email == email@,
            None => forall|i: int|
                0 <= i < students@.len() ==> (#[trigger] students@[i])@.email != email@,
        },
{
    let mut i: usize = 0;
    while i < students.len()
        invariant
            i <= students@.len(),
            forall|j: int| 0 <= j < i ==> (#[trigger] students@[j])@.email != email@,
        decreases students@.len() - i,
    {
        if str_eq(students[i].email.as_str(), email) {
            return Some(i);
        }
        i = i + 1;
    }
    None
}

impl Db {
    /// A fresh, empty store.
    pub fn new() -> (db: Db)
        ensures
            db@ == DbModel::empty(),
            db@.wf(),
    {
        let db = Db {
            students: Vec::new(),
            courses: Vec::new(),
            enrollments: Vec::new(),
            next_student_id: 1,
            next_course_id: 1,
        };
        proof {
            assert(db@ =~= DbModel::empty());
        }
        db
    }

    /// Inserts a student row, per [`spec_create_student`].
    pub fn insert_student(&mut self, new_student: NewStudent) -> (r: Result<Student, ApiError>)
        ensures
            final(self)@ == spec_create_student(old(self)@, new_student@).0,
            student_result_matches(r, spec_create_student(old(self)@, new_student@).1),
            old(self)@.wf() ==> final(self)@.wf(),
    {
        let ghost m = self@;
        match student_position(&self.students, new_student.email.as_str()) {
            Some(i) => {
                proof {
                    assert(m.students[i as int].email == new_student@.email);
                    assert(has_student_email(m, new_student@.email));
                }
                Err(ApiError::UniqueViolation)
            },
            None => {
                proof {
                    assert(forall|i: int|
                        0 <= i < m.students.len() ==> (#[trigger] m.students[i]).email
                            != new_student@.email) by {
                        assert(forall|i: int|
                            0 <= i < self.students@.len() ==> m.students[i]
                                == (#[trigger] self.students@[i])@);
                    }
                    assert(!has_student_email(m, new_student@.email));
                }
                if self.next_student_id == i32::MAX {
                    return Err(ApiError::InternalError);
                }
                let row = Student {
                    id: self.next_student_id,
                    email: new_student.email,
                    phone_number: new_student.phone_number,
                    created_at: new_student.created_at,
                    updated_at: new_student.updated_at,
                };
                let returned = copy_student(&row);
                let ghost row_model = row@;
                self.students.push(row);
                self.next_student_id = self.next_student_id + 1;
                proof {
                    assert(self.students.deep_view() =~= m.students.push(row_model));
                    assert(self@ =~= spec_create_student(m, new_student@).0);
                    if m.wf() {
                        crate::model::lemma_create_student_wf(m, new_student@);
                    }
                }
                Ok(returned)
            },
        }
    }

    /// Fetches the student row carrying this email, per [`spec_get_student`].
    pub fn find_student(&self, email: &str) -> (r: Result<Student, ApiError>)
        requires
            self@.wf(),
        ensures
            student_result_matches(r, spec_get_student(self@, email@)),
    {
        match student_position(&self.students, email) {
            Some(i) => {
                proof {
                    assert(self@.students[i as int].email == email@);
                    assert(has_student_email(self@, email@));
                    let j = choose|j: int|
                        0 <= j < self@.students.len() && (#[trigger] self@.students[j]).email
                            == email@;
                    assert(j == i as int);
                }
                Ok(copy_student(&self.students[i]))
            },
            None => {
                proof {
                    assert(forall|i: int|
                        0 <= i < self@.students.len() ==> (#[trigger] self@.students[i]).email
                            != email@) by {
                        assert(forall|i: int|
                            0 <= i < self.students@.len() ==> self@.students[i]
                                == (#[trigger] self.students@[i])@);
                    }
                }
                Err(ApiError::NotFound)
            },
        }
    }

    /// Deletes the student row carrying this email, per [`spec_delete_student`].
    pub fn remove_student(&mut self, email: &str) -> (r: Result<usize, ApiError>)
        requires
            old(self)@.wf(),
        ensures
            final(self)@ == spec_delete_student(old(self)@, email@).0,
            r == spec_delete_student(old(self)@, email@).1,
            final(self)@.wf(),
    {
        let ghost m = self@;
        match student_position(&self.students, email) {
            None => {
                proof {
                    assert(forall|i: int|
                        0 <= i < m.students.len() ==> (#[trigger] m.students[i]).email
                            != email@) by {
                        assert(forall|i: int|
                            0 <= i < self.students@.len() ==> m.students[i]
                                == (#[trigger] self.students@[i])@);
                    }
                }
                Ok(0)
            },
            Some(i) => {
                let sid = self.students[i].id;
                proof {
                    assert(m.students[i as int].email == email@);
                    assert(has_student_email(m, email@));
                    let j = choose|j: int|
                        0 <= j < m.students.len() && (#[trigger] m.students[j]).email == email@;
                    assert(j == i as int);
                    assert(student_for_email(m, email@) == m.students[i as int]);
                    assert(student_index_for_email(m, email@) == i as int);
                }
                if enrollment_with_student(&self.enrollments, sid) {
                    Err(ApiError::InternalError)
                } else {
                    self.students.remove(i);
                    proof {
                        assert(self.students.deep_view() =~= m.students.remove(i as int));
                        assert(self@ =~= spec_delete_student(m, email@).0);
                        crate::model::lemma_delete_student_wf(m, email@);
                    }
                    Ok(1)
                }
            },
        }
    }
}

/// The executable result carries the same value as the model result.
pub open spec fn course_result_matches(
    r: Result<Course, ApiError>,
    s: Result<CourseModel, ApiError>,
) -> bool {
    match (r, s) {
        (Ok(row), Ok(row_model)) => row@ == row_model,
        (Err(e), Err(e_model)) => e == e_model,
        _ => false,
    }
}

/// A field-by-field copy of a course row.
fn copy_course(source: &Course) -> (copy: Course)
    ensures
        copy == *source,
{
    Course {
        id: source.id,
        name: source.name.clone(),
        course_desc: match &source.course_desc {
            Some(d) => Some(d.clone()),
            None => None,
        },
    }
}

/// The index of the course row carrying this name, if any.
fn course_position(courses: &Vec<Course>, name: &str) -> (r: Option<usize>)
    ensures
        match r {
            Some(i) => i < courses@.len() && courses@[i as int]@.name == name@,
            None => forall|i: int|
                0 <= i < courses@.len() ==> (#[trigger] courses@[i])@.name != name@,
        },
{
    let mut i: usize = 0;
    while i < courses.len()
        invariant
            i <= courses@.len(),
            forall|j: int| 0 <= j < i ==> (#[trigger] courses@[j])@.name != name@,
        decreases courses@.len() - i,
    {
        if str_eq(courses[i].name.as_str(), name) {
            return Some(i);
        }
        i = i + 1;
    }
    None
}

impl Db {
    /// Inserts a course row, per [`spec_create_course`].
    pub fn insert_course(&mut self, new_course: NewCourse) -> (r: Result<Course, ApiError>)
        ensures
            final(self)@ == spec_create_course(old(self)@, new_course@).0,
            course_result_matches(r, spec_create_course(old(self)@, new_course@).1),
            old(self)@.wf() ==> final(self)@.wf(),
    {
        let ghost m = self@;
        match course_position(&self.courses, new_course.name.as_str()) {
            Some(i) => {
                proof {
                    assert(m.courses[i as int].name == new_course@.name);
                    assert(has_course_name(m, new_course@.name));
                }
                Err(ApiError::UniqueViolation)
            },
            None => {
                proof {
                    assert(forall|i: int|
                        0 <= i < m.courses.len() ==> (#[trigger] m.courses[i]).name
                            != new_course@.name) by {
                        assert(forall|i: int|
                            0 <= i < self.courses@.len() ==> m.courses[i]
                                == (#[trigger] self.courses@[i])@);
                    }
                    assert(!has_course_name(m, new_course@.name));
                }
                if self.next_course_id == i32::MAX {
                    return Err(ApiError::InternalError);
                }
                let row = Course {
                    id: self.next_course_id,
                    name: new_course.name,
                    course_desc: new_course.course_desc,
                };
                let returned = copy_course(&row);
                let ghost row_model = row@;
                self.courses.push(row);
                self.next_course_id = self.next_course_id + 1;
                proof {
                    assert(self.courses.deep_view() =~= m.courses.push(row_model));
                    assert(self@ =~= spec_create_course(m, new_course@).0);
                    if m.wf() {
                        crate::model::lemma_create_course_wf(m, new_course@);
                    }
                }
                Ok(returned)
            },
        }
    }

    /// Fetches the course row carrying this name, per [`spec_get_course`].
    pub fn find_course(&self, name: &str) -> (r: Result<Course, ApiError>)
        requires
            self@.wf(),
        ensures
            course_result_matches(r, spec_get_course(self@, name@)),
    {
        match course_position(&self.courses, name) {
            Some(i) => {
                proof {
                    assert(self@.courses[i as int].name == name@);
                    assert(has_course_name(self@, name@));
                    let j = choose|j: int|
                        0 <= j < self@.courses.len() && (#[trigger] self@.courses[j]).name
                            == name@;
                    assert(j == i as int);
                }
                Ok(copy_course(&self.courses[i]))
            },
            None => {
                proof {
                    assert(forall|i: int|
                        0 <= i < self@.courses.len() ==> (#[trigger] self@.courses[i]).name
                            != name@) by {
                        assert(forall|i: int|
                            0 <= i < self.courses@.len() ==> self@.courses[i]
                                == (#[trigger] self.courses@[i])@);
                    }
                }
                Err(ApiError::NotFound)
            },
        }
    }

    /// Deletes the course row carrying this name, per [`spec_delete_course`].
    pub fn remove_course(&mut self, name: &str) -> (r: Result<usize, ApiError>)
        requires
            old(self)@.wf(),
        ensures
            final(self)@ == spec_delete_course(old(self)@, name@).0,
            r == spec_delete_course(old(self)@, name@).1,
            final(self)@.wf(),
    {
        let ghost m = self@;
        match course_position(&self.courses, name) {
            None => {
                proof {
                    assert(forall|i: int|
                        0 <= i < m.courses.len() ==> (#[trigger] m.courses[i]).name != name@) by {
                        assert(forall|i: int|
                            0 <= i < self.courses@.len() ==> m.courses[i]
                                == (#[trigger] self.courses@[i])@);
                    }
                }
                Ok(0)
            },
            Some(i) => {
                let cid = self.courses[i].id;
                proof {
                    assert(m.courses[i as int].name == name@);
                    assert(has_course_name(m, name@));
                    let j = choose|j: int|
                        0 <= j < m.courses.len() && (#[trigger] m.courses[j]).name == name@;
                    assert(j == i as int);
                    assert(course_for_name(m, name@) == m.courses[i as int]);
                    assert(course_index_for_name(m, name@) == i as int);
                }
                if enrollment_with_course(&self.enrollments, cid) {
                    Err(ApiError::InternalError)
                } else {
                    self.courses.remove(i);
                    proof {
                        assert(self.courses.deep_view() =~= m.courses.remove(i as int));
                        assert(self@ =~= spec_delete_course(m, name@).0);
                        crate::model::lemma_delete_course_wf(m, name@);
                    }
                    Ok(1)
                }
            },
        }
    }
}

/// The executable result carries the same value as the model result.
pub open spec fn enrollment_result_matches(
    r: Result<StudentCourse, ApiError>,
    s: Result<StudentCourseModel, ApiError>,
) -> bool {
    match (r, s) {
        (Ok(row), Ok(row_model)) => row@ == row_model,
        (Err(e), Err(e_model)) => e == e_model,
        _ => false,
    }
}

/// The index of the enrollment row for the pair (sid, cid), if any.
fn enrollment_position(enrollments: &Vec<StudentCourse>, sid: i32, cid: i32) -> (r: Option<usize>)
    ensures
        match r {
            Some(i) => i < enrollments@.len() && enrollments@[i as int]@.student_id == sid as int
                && enrollments@[i as int]@.course_id == cid as int,
            None => forall|i: int|
                0 <= i < enrollments@.len() ==> !((#[trigger] enrollments@[i])@.student_id
                    == sid as int && enrollments@[i]@.course_id == cid as int),
        },
{
    let mut i: usize = 0;
    while i < enrollments.len()
        invariant
            i <= enrollments@.len(),
            forall|j: int|
                0 <= j < i ==> !((#[trigger] enrollments@[j])@.student_id == sid as int
                    && enrollments@[j]@.course_id == cid as int),
        decreases enrollments@.len() - i,
    {
        if enrollments[i].student_id == sid && enrollments[i].course_id == cid {
            return Some(i);
        }
        i = i + 1;
    }
    None
}

/// Whether some student row carries this identifier.
fn student_id_present(students: &Vec<Student>, sid: i32) -> (r: bool)
    ensures
        r == exists|i: int|
            0 <= i < students.deep_view().len() && (#[trigger] students.deep_view()[i]).id
                == sid as int,
{
    let mut i: usize = 0;
    while i < students.len()
        invariant
            i <= students@.len(),
            forall|j: int| 0 <= j < i ==> (#[trigger] students.deep_view()[j]).id != sid as int,
        decreases students@.len() - i,
    {
        if students[i].id == sid {
            proof {
                assert(students.deep_view()[i as int].id == sid as int);
            }
            return true;
        }
        i = i + 1;
    }
    false
}

/// Whether some course row carries this identifier.
fn course_id_present(courses: &Vec<Course>, cid: i32) -> (r: bool)
    ensures
        r == exists|i: int|
            0 <= i < courses.deep_view().len() && (#[trigger] courses.deep_view()[i]).id
                == cid as int,
{
    let mut i: usize = 0;
    while i < courses.len()
        invariant
            i <= courses@.len(),
            forall|j: int| 0 <= j < i ==> (#[trigger] courses.deep_view()[j]).id != cid as int,
        decreases courses@.len() - i,
    {
        if courses[i].id == cid {
            proof {
                assert(courses.deep_view()[i as int].id == cid as int);
            }
            return true;
        }
        i = i + 1;
    }
    false
}

impl Db {
    /// Inserts an enrollment row, per [`spec_create_enrollment`].
    pub fn insert_enrollment(&mut self, student_id: i32, course_id: i32) -> (r: Result<
        StudentCourse,
        ApiError,
    >)
        ensures
            final(self)@ == spec_create_enrollment(
                old(self)@,
                student_id as int,
                course_id as int,
            ).0,
            enrollment_result_matches(
                r,
                spec_create_enrollment(old(self)@, student_id as int, course_id as int).1,
            ),
            old(self)@.wf() ==> final(self)@.wf(),
    {
        let ghost m = self@;
        match enrollment_position(&self.enrollments, student_id, course_id) {
            Some(i) => {
                proof {
                    assert(m.enrollments[i as int].student_id == student_id as int
                        && m.enrollments[i as int].course_id == course_id as int);
                    assert(has_enrollment(m, student_id as int, course_id as int));
                }
                Err(ApiError::UniqueViolation)
            },
            None => {
                proof {
                    assert(forall|i: int|
                        0 <= i < m.enrollments.len() ==> !((#[trigger] m.enrollments[i]).student_id
                            == student_id as int && m.enrollments[i].course_id
                            == course_id as int)) by {
                        assert(forall|i: int|
                            0 <= i < self.enrollments@.len() ==> m.enrollments[i]
                                == (#[trigger] self.enrollments@[i])@);
                    }
                    assert(!has_enrollment(m, student_id as int, course_id as int));
                }
                if !student_id_present(&self.students, student_id) || !course_id_present(
                    &self.courses,
                    course_id,
                ) {
                    return Err(ApiError::InternalError);
                }
                let row = StudentCourse { student_id, course_id };
                self.enrollments.push(row);
                proof {
                    assert(self.enrollments.deep_view() =~= m.enrollments.push(row@));
                    assert(self@ =~= spec_create_enrollment(
                        m,
                        student_id as int,
                        course_id as int,
                    ).0);
                    if m.wf() {
                        crate::model::lemma_create_enrollment_wf(
                            m,
                            student_id as int,
                            course_id as int,
                        );
                    }
                }
                Ok(row)
            },
        }
    }

    /// Deletes the enrollment row for the pair, per [`spec_delete_enrollment`].
    pub fn remove_enrollment(&mut self, student_id: i32, course_id: i32) -> (count: usize)
        requires
            old(self)@.wf(),
        ensures
            final(self)@ == spec_delete_enrollment(
                old(self)@,
                student_id as int,
                course_id as int,
            ).0,
            count == spec_delete_enrollment(old(self)@, student_id as int, course_id as int).1,
            final(self)@.wf(),
    {
        let ghost m = self@;
        match enrollment_position(&self.enrollments, student_id, course_id) {
            None => {
                proof {
                    assert(forall|i: int|
                        0 <= i < m.enrollments.len() ==> !((#[trigger] m.enrollments[i]).student_id
                            == student_id as int && m.enrollments[i].course_id
                            == course_id as int)) by {
                        assert(forall|i: int|
                            0 <= i < self.enrollments@.len() ==> m.enrollments[i]
                                == (#[trigger] self.enrollments@[i])@);
                    }
                    assert(!has_enrollment(m, student_id as int, course_id as int));
                }
                0
            },
            Some(i) => {
                proof {
                    assert(m.enrollments[i as int].student_id == student_id as int
                        && m.enrollments[i as int].course_id == course_id as int);
                    assert(has_enrollment(m, student_id as int, course_id as int));
                    let j = choose|j: int|
                        0 <= j < m.enrollments.len() && (#[trigger] m.enrollments[j]).student_id
                            == student_id as int && m.enrollments[j].course_id == course_id as int;
                    assert(j == i as int);
                    assert(enrollment_index_for(m, student_id as int, course_id as int)
                        == i as int);
                }
                self.enrollments.remove(i);
                proof {
                    assert(self.enrollments.deep_view() =~= m.enrollments.remove(i as int));
                    assert(self@ =~= spec_delete_enrollment(
                        m,
                        student_id as int,
                        course_id as int,
                    ).0);
                    crate::model::lemma_delete_enrollment_wf(
                        m,
                        student_id as int,
                        course_id as int,
                    );
                }
                1
            },
        }
    }
}

/// The executable list carries the same rows as the model list.
pub open spec fn course_list_matches(
    r: Result<Vec<Course>, ApiError>,
    s: Result<Seq<CourseModel>, ApiError>,
) -> bool {
    match (r, s) {
        (Ok(rows), Ok(row_models)) => rows.deep_view() == row_models,
        (Err(e), Err(e_model)) => e == e_model,
        _ => false,
    }
}

/// The executable list carries the same rows as the model list.
pub open spec fn student_list_matches(
    r: Result<Vec<Student>, ApiError>,
    s: Result<Seq<StudentModel>, ApiError>,
) -> bool {
    match (r, s) {
        (Ok(rows), Ok(row_models)) => rows.deep_view() == row_models,
        (Err(e), Err(e_model)) => e == e_model,
        _ => false,
    }
}

/// The index of the course row carrying this identifier, which must exist.
fn course_index_by_id(courses: &Vec<Course>, cid: i32) -> (idx: usize)
    requires
        exists|i: int|
            0 <= i < courses.deep_view().len() && (#[trigger] courses.deep_view()[i]).id
                == cid as int,
    ensures
        idx < courses@.len(),
        courses.deep_view()[idx as int].id == cid as int,
{
    let mut i: usize = 0;
    while i < courses.len()
        invariant
            i <= courses@.len(),
            exists|j: int|
                0 <= j < courses.deep_view().len() && (#[trigger] courses.deep_view()[j]).id
                    == cid as int,
            forall|j: int| 0 <= j < i ==> (#[trigger] courses.deep_view()[j]).id != cid as int,
        decreases courses@.len() - i,
    {
        if courses[i].id == cid {
            proof {
                assert(courses.deep_view()[i as int].id == cid as int);
            }
            return i;
        }
        i = i + 1;
    }
    proof {
        let j = choose|j: int|
            0 <= j < courses.deep_view().len() && (#[trigger] courses.deep_view()[j]).id
                == cid as int;
        assert(false);
    }
    vstd::pervasive::unreached()
}

/// The index of the student row carrying this identifier, which must exist.
fn student_index_by_id(students: &Vec<Student>, sid: i32) -> (idx: usize)
    requires
        exists|i: int|
            0 <= i < students.deep_view().len() && (#[trigger] students.deep_view()[i]).id
                == sid as int,
    ensures
        idx < students@.len(),
        students.deep_view()[idx as int].id == sid as int,
{
    let mut i: usize = 0;
    while i < students.len()
        invariant
            i <= students@.len(),
            exists|j: int|
                0 <= j < students.deep_view().len() && (#[trigger] students.deep_view()[j]).id
                    == sid as int,
            forall|j: int| 0 <= j < i ==> (#[trigger] students.deep_view()[j]).id != sid as int,
        decreases students@.len() - i,
    {
        if students[i].id == sid {
            proof {
                assert(students.deep_view()[i as int].id == sid as int);
            }
            return i;
        }
        i = i + 1;
    }
    proof {
        let j = choose|j: int|
            0 <= j < students.deep_view().len() && (#[trigger] students.deep_view()[j]).id
                == sid as int;
        assert(false);
    }
    vstd::pervasive::unreached()
}

impl Db {
    /// Lists the courses the student with this email is enrolled in, per
    /// [`spec_courses_attended_by_student`]: the join of the enrollment rows
    /// with the course table, in enrollment order.
    pub fn courses_attended(&self, email: &str) -> (r: Result<Vec<Course>, ApiError>)
        requires
            self@.wf(),
        ensures
            course_list_matches(r, spec_courses_attended_by_student(self@, email@)),
    {
        let ghost m = self@;
        match student_position(&self.students, email) {
            None => {
                proof {
                    assert(forall|i: int|
                        0 <= i < m.students.len() ==> (#[trigger] m.students[i]).email
                            != email@) by {
                        assert(forall|i: int|
                            0 <= i < self.students@.len() ==> m.students[i]
                                == (#[trigger] self.students@[i])@);
                    }
                }
                Err(ApiError::NotFound)
            },
            Some(i) => {
                let sid = self.students[i].id;
                proof {
                    assert(m.students[i as int].email == email@);
                    assert(has_student_email(m, email@));
                    let j = choose|j: int|
                        0 <= j < m.students.len() && (#[trigger] m.students[j]).email == email@;
                    assert(j == i as int);
                    assert(student_for_email(m, email@).id == sid as int);
                }
                let mut rows: Vec<Course> = Vec::new();
                let mut k: usize = 0;
                proof {
                    assert(m.enrollments.subrange(0, 0) =~= Seq::<StudentCourseModel>::empty());
                    assert(rows.deep_view() =~= course_ids_for_student(
                        m.enrollments.subrange(0, 0),
                        sid as int,
                    ).map_values(|cid: int| course_for_id(m, cid)));
                }
                while k < self.enrollments.len()
                    invariant
                        m == self@,
                        m.wf(),
                        k <= self.enrollments@.len(),
                        rows.deep_view() == course_ids_for_student(
                            m.enrollments.subrange(0, k as int),
                            sid as int,
                        ).map_values(|cid: int| course_for_id(m, cid)),
                    decreases self.enrollments@.len() - k,
                {
                    let ghost rows_before = rows.deep_view();
                    if self.enrollments[k].student_id == sid {
                        let cid = self.enrollments[k].course_id;
                        proof {
                            assert(m.enrollments[k as int].course_id == cid as int);
                            assert(has_course_id(m, cid as int));
                        }
                        let p = course_index_by_id(&self.courses, cid);
                        proof {
                            let w = choose|w: int|
                                0 <= w < m.courses.len() && (#[trigger] m.courses[w]).id
                                    == cid as int;
                            assert(w == p as int);
                            assert(course_for_id(m, cid as int) == m.courses[p as int]);
                        }
                        rows.push(copy_course(&self.courses[p]));
                        proof {
                            assert(rows.deep_view() =~= rows_before.push(
                                course_for_id(m, cid as int),
                            ));
                        }
                    }
                    proof {
                        let sub_next = m.enrollments.subrange(0, k + 1);
                        assert(sub_next.drop_last() =~= m.enrollments.subrange(0, k as int));
                        assert(sub_next.last() == m.enrollments[k as int]);
                        assert(rows.deep_view() =~= course_ids_for_student(
                            sub_next,
                            sid as int,
                        ).map_values(|cid: int| course_for_id(m, cid)));
                    }
                    k = k + 1;
                }
                proof {
                    assert(m.enrollments.subrange(0, m.enrollments.len() as int)
                        =~= m.enrollments);
                    assert(rows.deep_view() == courses_for_student(m, sid as int));
                }
                Ok(rows)
            },
        }
    }

    /// Lists the students enrolled in the course with this name, per
    /// [`spec_students_in_course`].
    pub fn students_attending(&self, name: &str) -> (r: Result<Vec<Student>, ApiError>)
        requires
            self@.wf(),
        ensures
            student_list_matches(r, spec_students_in_course(self@, name@)),
    {
        let ghost m = self@;
        match course_position(&self.courses, name) {
            None => {
                proof {
                    assert(forall|i: int|
                        0 <= i < m.courses.len() ==> (#[trigger] m.courses[i]).name != name@) by {
                        assert(forall|i: int|
                            0 <= i < self.courses@.len() ==> m.courses[i]
                                == (#[trigger] self.courses@[i])@);
                    }
                }
                Err(ApiError::NotFound)
            },
            Some(i) => {
                let cid = self.courses[i].id;
                proof {
                    assert(m.courses[i as int].name == name@);
                    assert(has_course_name(m, name@));
                    let j = choose|j: int|
                        0 <= j < m.courses.len() && (#[trigger] m.courses[j]).name == name@;
                    assert(j == i as int);
                    assert(course_for_name(m, name@).id == cid as int);
                }
                let mut rows: Vec<Student> = Vec::new();
                let mut k: usize = 0;
                proof {
                    assert(m.enrollments.subrange(0, 0) =~= Seq::<StudentCourseModel>::empty());
                    assert(rows.deep_view() =~= student_ids_for_course(
                        m.enrollments.subrange(0, 0),
                        cid as int,
                    ).map_values(|sid: int| student_for_id(m, sid)));
                }
                while k < self.enrollments.len()
                    invariant
                        m == self@,
                        m.wf(),
                        k <= self.enrollments@.len(),
                        rows.deep_view() == student_ids_for_course(
                            m.enrollments.subrange(0, k as int),
                            cid as int,
                        ).map_values(|sid: int| student_for_id(m, sid)),
                    decreases self.enrollments@.len() - k,
                {
                    let ghost rows_before = rows.deep_view();
                    if self.enrollments[k].course_id == cid {
                        let sid = self.enrollments[k].student_id;
                        proof {
                            assert(m.enrollments[k as int].student_id == sid as int);
                            assert(has_student_id(m, sid as int));
                        }
                        let p = student_index_by_id(&self.students, sid);
                        proof {
                            let w = choose|w: int|
                                0 <= w < m.students.len() && (#[trigger] m.students[w]).id
                                    == sid as int;
                            assert(w == p as int);
                            assert(student_for_id(m, sid as int) == m.students[p as int]);
                        }
                        rows.push(copy_student(&self.students[p]));
                        proof {
                            assert(rows.deep_view() =~= rows_before.push(
                                student_for_id(m, sid as int),
                            ));
                        }
                    }
                    proof {
                        let sub_next = m.enrollments.subrange(0, k + 1);
                        assert(sub_next.drop_last() =~= m.enrollments.subrange(0, k as int));
                        assert(sub_next.last() == m.enrollments[k as int]);
                        assert(rows.deep_view() =~= student_ids_for_course(
                            sub_next,
                            cid as int,
                        ).map_values(|sid: int| student_for_id(m, sid)));
                    }
                    k = k + 1;
                }
                proof {
                    assert(m.enrollments.subrange(0, m.enrollments.len() as int)
                        =~= m.enrollments);
                    assert(rows.deep_view() == students_for_course(m, cid as int));
                }
                Ok(rows)
            },
        }
    }
}

/// Whether some enrollment row refers to this course.
fn enrollment_with_course(enrollments: &Vec<StudentCourse>, cid: i32) -> (r: bool)
    ensures
        r == exists|i: int|
            0 <= i < enrollments.deep_view().len() && (#[trigger] enrollments.deep_view()[i]).course_id
                == cid as int,
{
    let mut i: usize = 0;
    while i < enrollments.len()
        invariant
            i <= enrollments@.len(),
            forall|j: int|
                0 <= j < i ==> (#[trigger] enrollments.deep_view()[j]).course_id != cid as int,
        decreases enrollments@.len() - i,
    {
        if enrollments[i].course_id == cid {
            proof {
                assert(enrollments.deep_view()[i as int].course_id == cid as int);
            }
            return true;
        }
        i = i + 1;
    }
    false
}

/// Whether some enrollment row refers to this student.
fn enrollment_with_student(enrollments: &Vec<StudentCourse>, sid: i32) -> (r: bool)
    ensures
        r == exists|i: int|
            0 <= i < enrollments.deep_view().len() && (#[trigger] enrollments.deep_view()[i]).student_id
                == sid as int,
{
    let mut i: usize = 0;
    while i < enrollments.len()
        invariant
            i <= enrollments@.len(),
            forall|j: int|
                0 <= j < i ==> (#[trigger] enrollments.deep_view()[j]).student_id != sid as int,
        decreases enrollments@.len() - i,
    {
        if enrollments[i].student_id == sid {
            proof {
                assert(enrollments.deep_view()[i as int].student_id == sid as int);
            }
            return true;
        }
        i = i + 1;
    }
    false
}


/// The model row that [`create_student`] inserts for a bare email.
pub open spec fn bare_student_row(email: Seq<char>) -> NewStudentModel {
    NewStudentModel { email, phone_number: None, created_at: None, updated_at: None }
}

/// The model row that [`create_course`] inserts for a bare name.
pub open spec fn bare_course_row(name: Seq<char>) -> NewCourseModel {
    NewCourseModel { name, course_desc: None }
}

/// Inserts a student row carrying only an email, per
/// [`spec_create_student`]: fails with `UniqueViolation` exactly when the
/// email is already taken.
pub fn create_student(db: &mut Db, email: &str) -> (r: Result<Student, ApiError>)
    ensures
        final(db)@ == spec_create_student(old(db)@, bare_student_row(email@)).0,
        student_result_matches(r, spec_create_student(old(db)@, bare_student_row(email@)).1),
        old(db)@.wf() ==> final(db)@.wf(),
{
    let new_student = NewStudent {
        email: email.to_owned(),
        phone_number: None,
        created_at: None,
        updated_at: None,
    };
    db.insert_student(new_student)
}

/// Inserts a course row carrying only a name, per [`spec_create_course`]:
/// fails with `UniqueViolation` exactly when the name is already taken.
pub fn create_course(db: &mut Db, name: &str) -> (r: Result<Course, ApiError>)
    ensures
        final(db)@ == spec_create_course(old(db)@, bare_course_row(name@)).0,
        course_result_matches(r, spec_create_course(old(db)@, bare_course_row(name@)).1),
        old(db)@.wf() ==> final(db)@.wf(),
{
    let new_course = NewCourse { name: name.to_owned(), course_desc: None };
    db.insert_course(new_course)
}

/// Fetches the student row carrying this email, per [`spec_get_student`]:
/// fails with `NotFound` exactly when no row matches.
pub fn get_student(db: &Db, email: &str) -> (r: Result<Student, ApiError>)
    requires
        db@.wf(),
    ensures
        student_result_matches(r, spec_get_student(db@, email@)),
{
    db.find_student(email)
}

/// Fetches the course row carrying this name, per [`spec_get_course`]:
/// fails with `NotFound` exactly when no row matches.
pub fn get_course(db: &Db, name: &str) -> (r: Result<Course, ApiError>)
    requires
        db@.wf(),
    ensures
        course_result_matches(r, spec_get_course(db@, name@)),
{
    db.find_course(name)
}

/// Lists the courses the student with this email is enrolled in, per
/// [`spec_courses_attended_by_student`].
pub fn get_courses_attended_by_student(db: &Db, email: &str) -> (r: Result<Vec<Course>, ApiError>)
    requires
        db@.wf(),
    ensures
        course_list_matches(r, spec_courses_attended_by_student(db@, email@)),
{
    db.courses_attended(email)
}

/// Lists the students enrolled in the course with this name, per
/// [`spec_students_in_course`].
pub fn get_students_in_course(db: &Db, name: &str) -> (r: Result<Vec<Student>, ApiError>)
    requires
        db@.wf(),
    ensures
        student_list_matches(r, spec_students_in_course(db@, name@)),
{
    db.students_attending(name)
}

/// Inserts an enrollment row, per [`spec_create_enrollment`]: fails with
/// `UniqueViolation` exactly when the pair already exists, and with
/// `InternalError` when either referenced entity is absent.
pub fn create_student_course(db: &mut Db, student_id: i32, course_id: i32) -> (r: Result<
    StudentCourse,
    ApiError,
>)
    ensures
        final(db)@ == spec_create_enrollment(old(db)@, student_id as int, course_id as int).0,
        enrollment_result_matches(
            r,
            spec_create_enrollment(old(db)@, student_id as int, course_id as int).1,
        ),
        old(db)@.wf() ==> final(db)@.wf(),
{
    db.insert_enrollment(student_id, course_id)
}

/// Deletes the enrollment row for the pair, per [`spec_delete_enrollment`]:
/// reports how many rows were removed (0 or 1); an absent pair is not an
/// error.
pub fn delete_student_course(db: &mut Db, student_id: i32, course_id: i32) -> (r: Result<
    usize,
    ApiError,
>)
    requires
        old(db)@.wf(),
    ensures
        final(db)@ == spec_delete_enrollment(old(db)@, student_id as int, course_id as int).0,
        r == Ok::<usize, ApiError>(
            spec_delete_enrollment(old(db)@, student_id as int, course_id as int).1,
        ),
        final(db)@.wf(),
{
    Ok(db.remove_enrollment(student_id, course_id))
}

} // verus!
