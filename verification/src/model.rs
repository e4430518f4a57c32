//! The mathematical model of the store.
//!
//! Every repository operation is specified as a pure transition function on
//! [`DbModel`], and the executable store in [`crate::db`] ensures that its
//! result and its new state are exactly the ones these functions give.  The
//! laws of the enrollment relation are proved here as lemmas over the same
//! functions.

use vstd::prelude::*;

use crate::api::errors::ApiError;

verus! {

/// The model of one student row.
#[verifier::ext_equal]
pub ghost struct StudentModel {
    pub id: int,
    pub email: Seq<char>,
    pub phone_number: Option<Seq<char>>,
    pub created_at: Option<int>,
    pub updated_at: Option<int>,
}

/// The model of one course row.
#[verifier::ext_equal]
pub ghost struct CourseModel {
    pub id: int,
    pub name: Seq<char>,
    pub course_desc: Option<Seq<char>>,
}

/// The model of one enrollment row: the composite key (student, course).
#[verifier::ext_equal]
pub ghost struct StudentCourseModel {
    pub student_id: int,
    pub course_id: int,
}

/// The model of a student row about to be inserted; the identifier is chosen
/// by the store.
#[verifier::ext_equal]
pub ghost struct NewStudentModel {
    pub email: Seq<char>,
    pub phone_number: Option<Seq<char>>,
    pub created_at: Option<int>,
    pub updated_at: Option<int>,
}

/// The model of a course row about to be inserted.
#[verifier::ext_equal]
pub ghost struct NewCourseModel {
    pub name: Seq<char>,
    pub course_desc: Option<Seq<char>>,
}

/// The model of the whole store: the three tables, in insertion order, and
/// the next free identifier of each entity table.
#[verifier::ext_equal]
pub ghost struct DbModel {
    pub students: Seq<StudentModel>,
    pub courses: Seq<CourseModel>,
    pub enrollments: Seq<StudentCourseModel>,
    pub next_student_id: int,
    pub next_course_id: int,
}

/// Some student row carries this email.
pub open spec fn has_student_email(m: DbModel, email: Seq<char>) -> bool {
    exists|i: int| 0 <= i < m.students.len() && (#[trigger] m.students[i]).email == email
}

/// Some student row carries this identifier.
pub open spec fn has_student_id(m: DbModel, sid: int) -> bool {
    exists|i: int| 0 <= i < m.students.len() && (#[trigger] m.students[i]).id == sid
}

/// Some course row carries this name.
pub open spec fn has_course_name(m: DbModel, name: Seq<char>) -> bool {
    exists|i: int| 0 <= i < m.courses.len() && (#[trigger] m.courses[i]).name == name
}

/// Some course row carries this identifier.
pub open spec fn has_course_id(m: DbModel, cid: int) -> bool {
    exists|i: int| 0 <= i < m.courses.len() && (#[trigger] m.courses[i]).id == cid
}

/// The enrollment table holds the pair (sid, cid).
pub open spec fn has_enrollment(m: DbModel, sid: int, cid: int) -> bool {
    exists|i: int|
        0 <= i < m.enrollments.len() && (#[trigger] m.enrollments[i]).student_id == sid
            && m.enrollments[i].course_id == cid
}

/// Some enrollment row refers to this student.
pub open spec fn student_has_enrollment(m: DbModel, sid: int) -> bool {
    exists|i: int| 0 <= i < m.enrollments.len() && (#[trigger] m.enrollments[i]).student_id == sid
}

/// Some enrollment row refers to this course.
pub open spec fn course_has_enrollment(m: DbModel, cid: int) -> bool {
    exists|i: int| 0 <= i < m.enrollments.len() && (#[trigger] m.enrollments[i]).course_id == cid
}

/// The student row carrying this email; meaningful only when
/// `has_student_email` holds (under `wf` the row is unique).
pub open spec fn student_for_email(m: DbModel, email: Seq<char>) -> StudentModel {
    m.students[choose|i: int|
        0 <= i < m.students.len() && (#[trigger] m.students[i]).email == email]
}

/// The index of the student row carrying this email.
pub open spec fn student_index_for_email(m: DbModel, email: Seq<char>) -> int {
    choose|i: int| 0 <= i < m.students.len() && (#[trigger] m.students[i]).email == email
}

/// The course row carrying this name; meaningful only when `has_course_name`
/// holds.
pub open spec fn course_for_name(m: DbModel, name: Seq<char>) -> CourseModel {
    m.courses[choose|i: int| 0 <= i < m.courses.len() && (#[trigger] m.courses[i]).name == name]
}

/// The index of the course row carrying this name.
pub open spec fn course_index_for_name(m: DbModel, name: Seq<char>) -> int {
    choose|i: int| 0 <= i < m.courses.len() && (#[trigger] m.courses[i]).name == name
}

/// The student row carrying this identifier; meaningful only when
/// `has_student_id` holds.
pub open spec fn student_for_id(m: DbModel, sid: int) -> StudentModel {
    m.students[choose|i: int| 0 <= i < m.students.len() && (#[trigger] m.students[i]).id == sid]
}

/// The course row carrying this identifier; meaningful only when
/// `has_course_id` holds.
pub open spec fn course_for_id(m: DbModel, cid: int) -> CourseModel {
    m.courses[choose|i: int| 0 <= i < m.courses.len() && (#[trigger] m.courses[i]).id == cid]
}

/// The index of the enrollment row for the pair (sid, cid).
pub open spec fn enrollment_index_for(m: DbModel, sid: int, cid: int) -> int {
    choose|i: int|
        0 <= i < m.enrollments.len() && (#[trigger] m.enrollments[i]).student_id == sid
            && m.enrollments[i].course_id == cid
}

impl DbModel {
    /// The empty store, as created at process start.
    pub open spec fn empty() -> DbModel {
        DbModel {
            students: Seq::empty(),
            courses: Seq::empty(),
            enrollments: Seq::empty(),
            next_student_id: 1,
            next_course_id: 1,
        }
    }

    /// Well-formedness of the store:
    /// - the next free identifiers are positive and representable;
    /// - every row's identifier is positive and below the next free one;
    /// - student identifiers and emails are unique;
    /// - course identifiers and names are unique;
    /// - at most one enrollment row exists per (student, course) pair;
    /// - every enrollment refers to an existing student and course.
    pub open spec fn wf(self) -> bool {
        &&& 1 <= self.next_student_id <= i32::MAX
        &&& 1 <= self.next_course_id <= i32::MAX
        &&& forall|i: int|
            0 <= i < self.students.len() ==> 1 <= (#[trigger] self.students[i]).id
                < self.next_student_id
        &&& forall|i: int|
            0 <= i < self.courses.len() ==> 1 <= (#[trigger] self.courses[i]).id
                < self.next_course_id
        &&& forall|i: int, j: int|
            0 <= i < self.students.len() && 0 <= j < self.students.len() && i != j ==> {
                &&& (#[trigger] self.students[i]).id != (#[trigger] self.students[j]).id
                &&& self.students[i].email != self.students[j].email
            }
        &&& forall|i: int, j: int|
            0 <= i < self.courses.len() && 0 <= j < self.courses.len() && i != j ==> {
                &&& (#[trigger] self.courses[i]).id != (#[trigger] self.courses[j]).id
                &&& self.courses[i].name != self.courses[j].name
            }
        &&& forall|i: int, j: int|
            0 <= i < self.enrollments.len() && 0 <= j < self.enrollments.len() && i != j ==> !{
                &&& (#[trigger] self.enrollments[i]).student_id
                    == (#[trigger] self.enrollments[j]).student_id
                &&& self.enrollments[i].course_id == self.enrollments[j].course_id
            }
        &&& forall|i: int|
            0 <= i < self.enrollments.len() ==> {
                &&& has_student_id(self, (#[trigger] self.enrollments[i]).student_id)
                &&& has_course_id(self, self.enrollments[i].course_id)
            }
    }
}

/// Creating a student: fails with `UniqueViolation` if the email is taken,
/// with `InternalError` if the identifier space is exhausted; otherwise the
/// new row is appended and returned, carrying the next free identifier.
pub open spec fn spec_create_student(m: DbModel, new: NewStudentModel) -> (DbModel, Result<
    StudentModel,
    ApiError,
>) {
    if has_student_email(m, new.email) {
        (m, Err(ApiError::UniqueViolation))
    } else if m.next_student_id >= i32::MAX {
        (m, Err(ApiError::InternalError))
    } else {
        let row = StudentModel {
            id: m.next_student_id,
            email: new.email,
            phone_number: new.phone_number,
            created_at: new.created_at,
            updated_at: new.updated_at,
        };
        (
            DbModel {
                students: m.students.push(row),
                next_student_id: m.next_student_id + 1,
                ..m
            },
            Ok(row),
        )
    }
}

/// Fetching a student by email: `NotFound` exactly when no row matches.
pub open spec fn spec_get_student(m: DbModel, email: Seq<char>) -> Result<StudentModel, ApiError> {
    if has_student_email(m, email) {
        Ok(student_for_email(m, email))
    } else {
        Err(ApiError::NotFound)
    }
}

/// Deleting a student by email: removes the matching row and reports how many
/// rows were removed (0 or 1).  A student still referenced by an enrollment
/// cannot be removed (the referential constraint): that fails with
/// `InternalError`.
pub open spec fn spec_delete_student(m: DbModel, email: Seq<char>) -> (DbModel, Result<
    usize,
    ApiError,
>) {
    if !has_student_email(m, email) {
        (m, Ok(0usize))
    } else if student_has_enrollment(m, student_for_email(m, email).id) {
        (m, Err(ApiError::InternalError))
    } else {
        (
            DbModel { students: m.students.remove(student_index_for_email(m, email)), ..m },
            Ok(1usize),
        )
    }
}

/// Creating a course: fails with `UniqueViolation` if the name is taken, with
/// `InternalError` if the identifier space is exhausted; otherwise the new
/// row is appended and returned.
pub open spec fn spec_create_course(m: DbModel, new: NewCourseModel) -> (DbModel, Result<
    CourseModel,
    ApiError,
>) {
    if has_course_name(m, new.name) {
        (m, Err(ApiError::UniqueViolation))
    } else if m.next_course_id >= i32::MAX {
        (m, Err(ApiError::InternalError))
    } else {
        let row = CourseModel {
            id: m.next_course_id,
            name: new.name,
            course_desc: new.course_desc,
        };
        (
            DbModel { courses: m.courses.push(row), next_course_id: m.next_course_id + 1, ..m },
            Ok(row),
        )
    }
}

/// Fetching a course by name: `NotFound` exactly when no row matches.
pub open spec fn spec_get_course(m: DbModel, name: Seq<char>) -> Result<CourseModel, ApiError> {
    if has_course_name(m, name) {
        Ok(course_for_name(m, name))
    } else {
        Err(ApiError::NotFound)
    }
}

/// Deleting a course by name, under the same referential constraint as
/// student deletion.
pub open spec fn spec_delete_course(m: DbModel, name: Seq<char>) -> (DbModel, Result<
    usize,
    ApiError,
>) {
    if !has_course_name(m, name) {
        (m, Ok(0usize))
    } else if course_has_enrollment(m, course_for_name(m, name).id) {
        (m, Err(ApiError::InternalError))
    } else {
        (DbModel { courses: m.courses.remove(course_index_for_name(m, name)), ..m }, Ok(1usize))
    }
}

/// Inserting an enrollment row by identifiers: fails with `UniqueViolation`
/// if the pair already exists, with `InternalError` if either referenced
/// entity is absent (the store's foreign-key check); otherwise the pair is
/// appended and returned.
pub open spec fn spec_create_enrollment(m: DbModel, sid: int, cid: int) -> (DbModel, Result<
    StudentCourseModel,
    ApiError,
>) {
    if has_enrollment(m, sid, cid) {
        (m, Err(ApiError::UniqueViolation))
    } else if !has_student_id(m, sid) || !has_course_id(m, cid) {
        (m, Err(ApiError::InternalError))
    } else {
        let row = StudentCourseModel { student_id: sid, course_id: cid };
        (DbModel { enrollments: m.enrollments.push(row), ..m }, Ok(row))
    }
}

/// Deleting an enrollment row by identifiers: removes the pair if present and
/// reports how many rows were removed (0 or 1).  Deleting an absent pair is
/// not an error.
pub open spec fn spec_delete_enrollment(m: DbModel, sid: int, cid: int) -> (DbModel, usize) {
    if has_enrollment(m, sid, cid) {
        (
            DbModel { enrollments: m.enrollments.remove(enrollment_index_for(m, sid, cid)), ..m },
            1usize,
        )
    } else {
        (m, 0usize)
    }
}

/// The identifiers of the courses a student is enrolled in, in the order the
/// enrollment rows were inserted.
pub open spec fn course_ids_for_student(enrollments: Seq<StudentCourseModel>, sid: int) -> Seq<int>
    decreases enrollments.len(),
{
    if enrollments.len() == 0 {
        Seq::empty()
    } else {
        let rest = course_ids_for_student(enrollments.drop_last(), sid);
        if enrollments.last().student_id == sid {
            rest.push(enrollments.last().course_id)
        } else {
            rest
        }
    }
}

/// The identifiers of the students enrolled in a course, in the order the
/// enrollment rows were inserted.
pub open spec fn student_ids_for_course(enrollments: Seq<StudentCourseModel>, cid: int) -> Seq<int>
    decreases enrollments.len(),
{
    if enrollments.len() == 0 {
        Seq::empty()
    } else {
        let rest = student_ids_for_course(enrollments.drop_last(), cid);
        if enrollments.last().course_id == cid {
            rest.push(enrollments.last().student_id)
        } else {
            rest
        }
    }
}

/// The course rows a student is enrolled in, in enrollment order.
pub open spec fn courses_for_student(m: DbModel, sid: int) -> Seq<CourseModel> {
    course_ids_for_student(m.enrollments, sid).map_values(|cid: int| course_for_id(m, cid))
}

/// The student rows enrolled in a course, in enrollment order.
pub open spec fn students_for_course(m: DbModel, cid: int) -> Seq<StudentModel> {
    student_ids_for_course(m.enrollments, cid).map_values(|sid: int| student_for_id(m, sid))
}

/// Listing the courses attended by a student, resolved by email: `NotFound`
/// exactly when the student is absent; otherwise the (possibly empty) list of
/// enrolled courses.
pub open spec fn spec_courses_attended_by_student(m: DbModel, email: Seq<char>) -> Result<
    Seq<CourseModel>,
    ApiError,
> {
    if has_student_email(m, email) {
        Ok(courses_for_student(m, student_for_email(m, email).id))
    } else {
        Err(ApiError::NotFound)
    }
}

/// Listing the students in a course, resolved by name.
pub open spec fn spec_students_in_course(m: DbModel, name: Seq<char>) -> Result<
    Seq<StudentModel>,
    ApiError,
> {
    if has_course_name(m, name) {
        Ok(students_for_course(m, course_for_name(m, name).id))
    } else {
        Err(ApiError::NotFound)
    }
}

/// Enrolling by email and course name: the student is resolved first, then
/// the course — each failing with `NotFound` and leaving the store unchanged
/// — and only then is the enrollment row inserted.
pub open spec fn spec_enroll(m: DbModel, email: Seq<char>, name: Seq<char>) -> (DbModel, Result<
    StudentCourseModel,
    ApiError,
>) {
    if !has_student_email(m, email) {
        (m, Err(ApiError::NotFound))
    } else if !has_course_name(m, name) {
        (m, Err(ApiError::NotFound))
    } else {
        spec_create_enrollment(m, student_for_email(m, email).id, course_for_name(m, name).id)
    }
}

/// Unenrolling by email and course name: both parents are resolved as in
/// `spec_enroll`; removing an absent pair is not an error and reports 0.
pub open spec fn spec_unenroll(m: DbModel, email: Seq<char>, name: Seq<char>) -> (DbModel, Result<
    usize,
    ApiError,
>) {
    if !has_student_email(m, email) {
        (m, Err(ApiError::NotFound))
    } else if !has_course_name(m, name) {
        (m, Err(ApiError::NotFound))
    } else {
        let (m2, count) = spec_delete_enrollment(
            m,
            student_for_email(m, email).id,
            course_for_name(m, name).id,
        );
        (m2, Ok(count))
    }
}

/// A student with no enrollment rows attends no courses: listing them gives
/// the empty sequence, not an error.
pub proof fn lemma_no_enrollments_no_courses(enrollments: Seq<StudentCourseModel>, sid: int)
    requires
        forall|i: int| 0 <= i < enrollments.len() ==> (#[trigger] enrollments[i]).student_id != sid,
    ensures
        course_ids_for_student(enrollments, sid) == Seq::<int>::empty(),
    decreases enrollments.len(),
{
    if enrollments.len() > 0 {
        assert forall|i: int| 0 <= i < enrollments.drop_last().len() implies (#[trigger]
        enrollments.drop_last()[i]).student_id != sid by {
            assert(enrollments.drop_last()[i] == enrollments[i]);
        }
        lemma_no_enrollments_no_courses(enrollments.drop_last(), sid);
    }
}

/// Stores with the same student table resolve an email to the same row; the
/// first store's uniqueness makes the resolution unambiguous.
proof fn lemma_same_students_same_resolution(m1: DbModel, m2: DbModel, email: Seq<char>)
    requires
        m1.wf(),
        m1.students == m2.students,
        has_student_email(m1, email),
    ensures
        has_student_email(m2, email),
        student_for_email(m2, email) == student_for_email(m1, email),
{
    let i1 = choose|i: int|
        0 <= i < m1.students.len() && (#[trigger] m1.students[i]).email == email;
    assert(m2.students[i1].email == email);
    assert(has_student_email(m2, email));
    let i2 = choose|i: int|
        0 <= i < m2.students.len() && (#[trigger] m2.students[i]).email == email;
    assert(m1.students[i2].email == email);
    assert(i1 == i2);
}

/// Stores with the same course table resolve a name to the same row.
proof fn lemma_same_courses_same_resolution(m1: DbModel, m2: DbModel, name: Seq<char>)
    requires
        m1.wf(),
        m1.courses == m2.courses,
        has_course_name(m1, name),
    ensures
        has_course_name(m2, name),
        course_for_name(m2, name) == course_for_name(m1, name),
{
    let i1 = choose|i: int| 0 <= i < m1.courses.len() && (#[trigger] m1.courses[i]).name == name;
    assert(m2.courses[i1].name == name);
    assert(has_course_name(m2, name));
    let i2 = choose|i: int| 0 <= i < m2.courses.len() && (#[trigger] m2.courses[i]).name == name;
    assert(m1.courses[i2].name == name);
    assert(i1 == i2);
}

/// Enrolling a known student in a known, not yet attended course succeeds
/// exactly once: the same enrollment a second time fails with
/// `UniqueViolation` and changes nothing; unenrolling afterwards removes
/// exactly one row; and re-enrolling then succeeds again — the pair is not
/// permanently blocked.
pub proof fn lemma_enroll_exactly_once(m: DbModel, email: Seq<char>, name: Seq<char>)
    requires
        m.wf(),
        has_student_email(m, email),
        has_course_name(m, name),
        !has_enrollment(m, student_for_email(m, email).id, course_for_name(m, name).id),
    ensures
        spec_enroll(m, email, name).1 is Ok,
        ({
            let m1 = spec_enroll(m, email, name).0;
            &&& spec_enroll(m1, email, name).1 == Err::<StudentCourseModel, ApiError>(
                ApiError::UniqueViolation,
            )
            &&& spec_enroll(m1, email, name).0 == m1
            &&& spec_unenroll(m1, email, name).1 == Ok::<usize, ApiError>(1usize)
            &&& spec_enroll(spec_unenroll(m1, email, name).0, email, name).1 is Ok
        }),
{
    let sid = student_for_email(m, email).id;
    let cid = course_for_name(m, name).id;
    let si = choose|i: int|
        0 <= i < m.students.len() && (#[trigger] m.students[i]).email == email;
    assert(m.students[si].id == sid);
    assert(has_student_id(m, sid));
    let ci = choose|i: int| 0 <= i < m.courses.len() && (#[trigger] m.courses[i]).name == name;
    assert(m.courses[ci].id == cid);
    assert(has_course_id(m, cid));

    let m1 = spec_enroll(m, email, name).0;
    assert(m1.enrollments == m.enrollments.push(StudentCourseModel {
        student_id: sid,
        course_id: cid,
    }));
    lemma_create_enrollment_wf(m, sid, cid);
    assert(m1.wf());
    lemma_same_students_same_resolution(m, m1, email);
    lemma_same_courses_same_resolution(m, m1, name);
    assert(m1.enrollments[m.enrollments.len() as int] == (StudentCourseModel {
        student_id: sid,
        course_id: cid,
    }));
    assert(has_enrollment(m1, sid, cid));
    assert(spec_enroll(m1, email, name).1 == Err::<StudentCourseModel, ApiError>(
        ApiError::UniqueViolation,
    ));
    assert(spec_enroll(m1, email, name).0 == m1);

    let m2 = spec_unenroll(m1, email, name).0;
    assert(spec_unenroll(m1, email, name).1 == Ok::<usize, ApiError>(1usize));
    let idx = enrollment_index_for(m1, sid, cid);
    assert(0 <= idx < m1.enrollments.len() && m1.enrollments[idx].student_id == sid
        && m1.enrollments[idx].course_id == cid);
    assert(m2.enrollments == m1.enrollments.remove(idx));
    m1.enrollments.remove_ensures(idx);
    lemma_same_students_same_resolution(m, m2, email);
    lemma_same_courses_same_resolution(m, m2, name);
    assert(!has_enrollment(m2, sid, cid)) by {
        if has_enrollment(m2, sid, cid) {
            let k = choose|k: int|
                0 <= k < m2.enrollments.len() && (#[trigger] m2.enrollments[k]).student_id == sid
                    && m2.enrollments[k].course_id == cid;
            if k < idx {
                assert(m1.enrollments[k].student_id == sid && m1.enrollments[k].course_id == cid);
                assert(false);
            } else {
                assert(m1.enrollments[k + 1].student_id == sid && m1.enrollments[k + 1].course_id
                    == cid);
                assert(false);
            }
        }
    }
    assert(has_student_id(m2, sid)) by {
        assert(m2.students[si].id == sid);
    }
    assert(has_course_id(m2, cid)) by {
        assert(m2.courses[ci].id == cid);
    }
    assert(spec_enroll(m2, email, name).1 is Ok);
}

/// A student identifier is listed for a course exactly when the enrollment
/// table holds its pair.
pub proof fn lemma_student_ids_membership(
    enrollments: Seq<StudentCourseModel>,
    cid: int,
    sid: int,
)
    ensures
        student_ids_for_course(enrollments, cid).contains(sid) <==> exists|i: int|
            0 <= i < enrollments.len() && (#[trigger] enrollments[i]).student_id == sid
                && enrollments[i].course_id == cid,
    decreases enrollments.len(),
{
    if enrollments.len() == 0 {
    } else {
        let dl = enrollments.drop_last();
        let last = enrollments.last();
        lemma_student_ids_membership(dl, cid, sid);
        let ids = student_ids_for_course(enrollments, cid);
        let ids_dl = student_ids_for_course(dl, cid);
        if ids.contains(sid) {
            let k = choose|k: int| 0 <= k < ids.len() && ids[k] == sid;
            if last.course_id == cid && k == ids_dl.len() {
                assert(enrollments[enrollments.len() - 1].student_id == sid);
            } else {
                assert(ids_dl[k] == sid);
                assert(ids_dl.contains(sid));
                let i = choose|i: int|
                    0 <= i < dl.len() && (#[trigger] dl[i]).student_id == sid && dl[i].course_id
                        == cid;
                assert(enrollments[i] == dl[i]);
            }
        }
        if exists|i: int|
            0 <= i < enrollments.len() && (#[trigger] enrollments[i]).student_id == sid
                && enrollments[i].course_id == cid {
            let i = choose|i: int|
                0 <= i < enrollments.len() && (#[trigger] enrollments[i]).student_id == sid
                    && enrollments[i].course_id == cid;
            if i == enrollments.len() - 1 {
                assert(ids[ids.len() - 1] == sid);
                assert(ids.contains(sid));
            } else {
                assert(dl[i] == enrollments[i]);
                assert(ids_dl.contains(sid));
                let k = choose|k: int| 0 <= k < ids_dl.len() && ids_dl[k] == sid;
                assert(ids[k] == sid);
                assert(ids.contains(sid));
            }
        }
    }
}

/// Under unique enrollment pairs, no student identifier is listed twice for
/// a course.
pub proof fn lemma_student_ids_unique(enrollments: Seq<StudentCourseModel>, cid: int)
    requires
        forall|i: int, j: int|
            0 <= i < enrollments.len() && 0 <= j < enrollments.len() && i != j ==> !{
                &&& (#[trigger] enrollments[i]).student_id == (#[trigger] enrollments[j]).student_id
                &&& enrollments[i].course_id == enrollments[j].course_id
            },
    ensures
        ({
            let ids = student_ids_for_course(enrollments, cid);
            forall|k1: int, k2: int|
                0 <= k1 < ids.len() && 0 <= k2 < ids.len() && k1 != k2 ==> #[trigger] ids[k1]
                    != #[trigger] ids[k2]
        }),
    decreases enrollments.len(),
{
    if enrollments.len() > 0 {
        let dl = enrollments.drop_last();
        let last = enrollments.last();
        assert forall|i: int, j: int|
            0 <= i < dl.len() && 0 <= j < dl.len() && i != j implies !{
            &&& (#[trigger] dl[i]).student_id == (#[trigger] dl[j]).student_id
            &&& dl[i].course_id == dl[j].course_id
        } by {
            assert(dl[i] == enrollments[i]);
            assert(dl[j] == enrollments[j]);
        }
        lemma_student_ids_unique(dl, cid);
        let ids = student_ids_for_course(enrollments, cid);
        let ids_dl = student_ids_for_course(dl, cid);
        if last.course_id == cid {
            assert forall|k1: int, k2: int|
                0 <= k1 < ids.len() && 0 <= k2 < ids.len() && k1 != k2 implies #[trigger] ids[k1]
                != #[trigger] ids[k2] by {
                if k1 < ids_dl.len() && k2 < ids_dl.len() {
                } else {
                    let kd = if k1 < ids_dl.len() {
                        k1
                    } else {
                        k2
                    };
                    if ids[kd] == last.student_id {
                        assert(ids_dl[kd] == last.student_id);
                        assert(ids_dl.contains(last.student_id));
                        lemma_student_ids_membership(dl, cid, last.student_id);
                        let i = choose|i: int|
                            0 <= i < dl.len() && (#[trigger] dl[i]).student_id == last.student_id
                                && dl[i].course_id == cid;
                        assert(enrollments[i] == dl[i]);
                        assert(enrollments[enrollments.len() - 1] == last);
                    }
                }
            }
        }
    }
}

/// The listing of a course's students is exactly the set of enrolled
/// students, with no row listed twice, however the enrollment rows are
/// ordered: an identifier is listed iff its pair is enrolled, each listed
/// row is the store's student row for its identifier, and no identifier
/// repeats.
pub proof fn lemma_students_for_course_exact(m: DbModel, cid: int)
    requires
        m.wf(),
    ensures
        forall|sid: int| #[trigger]
            student_ids_for_course(m.enrollments, cid).contains(sid) <==> has_enrollment(
                m,
                sid,
                cid,
            ),
        ({
            let ids = student_ids_for_course(m.enrollments, cid);
            forall|k1: int, k2: int|
                0 <= k1 < ids.len() && 0 <= k2 < ids.len() && k1 != k2 ==> #[trigger] ids[k1]
                    != #[trigger] ids[k2]
        }),
        students_for_course(m, cid).len() == student_ids_for_course(m.enrollments, cid).len(),
        forall|k: int|
            0 <= k < students_for_course(m, cid).len() ==> m.students.contains(
                #[trigger] students_for_course(m, cid)[k],
            ) && students_for_course(m, cid)[k].id == student_ids_for_course(m.enrollments, cid)[k],
{
    assert forall|sid: int| #[trigger]
        student_ids_for_course(m.enrollments, cid).contains(sid) <==> has_enrollment(
            m,
            sid,
            cid,
        ) by {
        lemma_student_ids_membership(m.enrollments, cid, sid);
    }
    lemma_student_ids_unique(m.enrollments, cid);
    let ids = student_ids_for_course(m.enrollments, cid);
    assert forall|k: int| 0 <= k < students_for_course(m, cid).len() implies m.students.contains(
        #[trigger] students_for_course(m, cid)[k],
    ) && students_for_course(m, cid)[k].id == ids[k] by {
        assert(ids.contains(ids[k]));
        assert(has_enrollment(m, ids[k], cid));
        let e = choose|i: int|
            0 <= i < m.enrollments.len() && (#[trigger] m.enrollments[i]).student_id == ids[k]
                && m.enrollments[i].course_id == cid;
        assert(has_student_id(m, ids[k]));
        let w = choose|w: int|
            0 <= w < m.students.len() && (#[trigger] m.students[w]).id == ids[k];
        assert(students_for_course(m, cid)[k] == student_for_id(m, ids[k]));
        assert(student_for_id(m, ids[k]) == m.students[w]);
    }
}

/// Creating a student preserves well-formedness of the store.
pub proof fn lemma_create_student_wf(m: DbModel, new: NewStudentModel)
    requires
        m.wf(),
    ensures
        spec_create_student(m, new).0.wf(),
{
    let m2 = spec_create_student(m, new).0;
    if !has_student_email(m, new.email) && m.next_student_id < i32::MAX {
        assert forall|i: int| 0 <= i < m2.enrollments.len() implies {
            &&& has_student_id(m2, (#[trigger] m2.enrollments[i]).student_id)
            &&& has_course_id(m2, m2.enrollments[i].course_id)
        } by {
            let sid = m.enrollments[i].student_id;
            assert(has_student_id(m, sid));
            let w = choose|w: int|
                0 <= w < m.students.len() && (#[trigger] m.students[w]).id == sid;
            assert(m2.students[w].id == sid);
        }
    }
}

/// Inserting an enrollment preserves well-formedness of the store.
pub proof fn lemma_create_enrollment_wf(m: DbModel, sid: int, cid: int)
    requires
        m.wf(),
    ensures
        spec_create_enrollment(m, sid, cid).0.wf(),
{
    let m2 = spec_create_enrollment(m, sid, cid).0;
    if !has_enrollment(m, sid, cid) && has_student_id(m, sid) && has_course_id(m, cid) {
        assert forall|k: int| 0 <= k < m2.enrollments.len() implies {
            &&& has_student_id(m2, (#[trigger] m2.enrollments[k]).student_id)
            &&& has_course_id(m2, m2.enrollments[k].course_id)
        } by {
            if k < m.enrollments.len() {
                assert(m2.enrollments[k] == m.enrollments[k]);
            } else {
                assert(m2.enrollments[k] == (StudentCourseModel {
                    student_id: sid,
                    course_id: cid,
                }));
            }
        }
    }
}

/// Removing an enrollment preserves well-formedness of the store.
pub proof fn lemma_delete_enrollment_wf(m: DbModel, sid: int, cid: int)
    requires
        m.wf(),
    ensures
        spec_delete_enrollment(m, sid, cid).0.wf(),
{
    let m2 = spec_delete_enrollment(m, sid, cid).0;
    if has_enrollment(m, sid, cid) {
        let idx = enrollment_index_for(m, sid, cid);
        assert(0 <= idx < m.enrollments.len());
        m.enrollments.remove_ensures(idx);
    }
}

/// Creating a course preserves well-formedness of the store.
pub proof fn lemma_create_course_wf(m: DbModel, new: NewCourseModel)
    requires
        m.wf(),
    ensures
        spec_create_course(m, new).0.wf(),
{
    let m2 = spec_create_course(m, new).0;
    if !has_course_name(m, new.name) && m.next_course_id < i32::MAX {
        assert forall|i: int| 0 <= i < m2.enrollments.len() implies {
            &&& has_student_id(m2, (#[trigger] m2.enrollments[i]).student_id)
            &&& has_course_id(m2, m2.enrollments[i].course_id)
        } by {
            let cid = m.enrollments[i].course_id;
            assert(has_course_id(m, cid));
            let w = choose|w: int| 0 <= w < m.courses.len() && (#[trigger] m.courses[w]).id == cid;
            assert(m2.courses[w].id == cid);
        }
    }
}

/// Deleting a course preserves well-formedness of the store.
pub proof fn lemma_delete_course_wf(m: DbModel, name: Seq<char>)
    requires
        m.wf(),
    ensures
        spec_delete_course(m, name).0.wf(),
{
    let m2 = spec_delete_course(m, name).0;
    if has_course_name(m, name) && !course_has_enrollment(m, course_for_name(m, name).id) {
        let idx = course_index_for_name(m, name);
        assert(0 <= idx < m.courses.len() && m.courses[idx].name == name);
        m.courses.remove_ensures(idx);
        assert forall|k: int| 0 <= k < m2.enrollments.len() implies {
            &&& has_student_id(m2, (#[trigger] m2.enrollments[k]).student_id)
            &&& has_course_id(m2, m2.enrollments[k].course_id)
        } by {
            let cid = m.enrollments[k].course_id;
            assert(has_course_id(m, cid));
            let w = choose|w: int| 0 <= w < m.courses.len() && (#[trigger] m.courses[w]).id == cid;
            assert(m.courses[idx].id != cid);
            if w < idx {
                assert(m2.courses[w].id == cid);
            } else {
                assert(m2.courses[w - 1].id == cid);
            }
        }
    }
}

/// Deleting a student preserves well-formedness of the store.
pub proof fn lemma_delete_student_wf(m: DbModel, email: Seq<char>)
    requires
        m.wf(),
    ensures
        spec_delete_student(m, email).0.wf(),
{
    let m2 = spec_delete_student(m, email).0;
    if has_student_email(m, email) && !student_has_enrollment(m, student_for_email(m, email).id) {
        let idx = student_index_for_email(m, email);
        assert(0 <= idx < m.students.len() && m.students[idx].email == email);
        m.students.remove_ensures(idx);
        assert forall|k: int| 0 <= k < m2.enrollments.len() implies {
            &&& has_student_id(m2, (#[trigger] m2.enrollments[k]).student_id)
            &&& has_course_id(m2, m2.enrollments[k].course_id)
        } by {
            let sid = m.enrollments[k].student_id;
            assert(has_student_id(m, sid));
            let w = choose|w: int|
                0 <= w < m.students.len() && (#[trigger] m.students[w]).id == sid;
            assert(m.students[idx].id != sid);
            if w < idx {
                assert(m2.students[w].id == sid);
            } else {
                assert(m2.students[w - 1].id == sid);
            }
        }
    }
}

} // verus!
