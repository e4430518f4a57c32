//! Request and response types, and handler logic, for the student endpoints.

use vstd::prelude::*;

use crate::api::errors::ApiError;
use crate::api::utils::{valid_email, validate_email};
use crate::db::students::{NewStudent, Student};
use crate::db::Db;
use crate::model::{
    has_student_email, spec_create_student, spec_get_student, NewStudentModel, StudentModel,
};

verus! {

/// The query of `GET /students`.
#[derive(Debug)]
pub struct GetStudentRequest {
    pub email: String,
}

/// The body of `POST /students`.
#[derive(Debug, Clone)]
pub struct CreateStudentRequest {
    pub email: String,
    pub phone_number: Option<String>,
}

/// The body returned for a student row.
#[derive(Debug, PartialEq)]
pub struct StudentResponse {
    pub id: i32,
    pub email: String,
    pub phone_number: Option<String>,
    pub created_at: Option<i64>,
    pub updated_at: Option<i64>,
}

impl View for StudentResponse {
    type V = StudentModel;

    open spec fn view(&self) -> StudentModel {
        StudentModel {
            id: self.id as int,
            email: self.email@,
            phone_number: self.phone_number.deep_view(),
            created_at: match self.created_at {
                Some(t) => Some(t as int),
                None => None,
            },
            updated_at: match self.updated_at {
                Some(t) => Some(t as int),
                None => None,
            },
        }
    }
}

impl From<Student> for StudentResponse {
    /// The response carries the row's fields unchanged.
    fn from(student: Student) -> (r: Self) {
        StudentResponse {
            id: student.id,
            email: student.email,
            phone_number: student.phone_number,
            created_at: student.created_at,
            updated_at: student.updated_at,
        }
    }
}

impl vstd::std_specs::convert::FromSpecImpl<Student> for StudentResponse {
    open spec fn obeys_from_spec() -> bool {
        true
    }

    open spec fn from_spec(student: Student) -> Self {
        StudentResponse {
            id: student.id,
            email: student.email,
            phone_number: student.phone_number,
            created_at: student.created_at,
            updated_at: student.updated_at,
        }
    }
}

/// The executable response carries the same row as the model result.
pub open spec fn student_response_matches(
    r: Result<StudentResponse, ApiError>,
    s: Result<StudentModel, ApiError>,
) -> bool {
    match (r, s) {
        (Ok(resp), Ok(row_model)) => resp@ == row_model,
        (Err(e), Err(e_model)) => e == e_model,
        _ => false,
    }
}

/// The model row a creation request asks for, stamped with the caller's
/// clock reading.
pub open spec fn requested_student_row(
    email: Seq<char>,
    phone_number: Option<Seq<char>>,
    now: Option<i64>,
) -> NewStudentModel {
    NewStudentModel {
        email,
        phone_number,
        created_at: match now {
            Some(t) => Some(t as int),
            None => None,
        },
        updated_at: match now {
            Some(t) => Some(t as int),
            None => None,
        },
    }
}

/// Handles `GET /students?email=E`: fails with `NotFound` exactly when no
/// student carries the email.
pub fn get_student(db: &Db, params: &GetStudentRequest) -> (r: Result<StudentResponse, ApiError>)
    requires
        db@.wf(),
    ensures
        student_response_matches(r, spec_get_student(db@, params.email@)),
        !has_student_email(db@, params.email@) ==> r == Err::<StudentResponse, ApiError>(
            ApiError::NotFound,
        ),
{
    match db.find_student(params.email.as_str()) {
        Ok(student) => Ok(StudentResponse::from(student)),
        Err(e) => Err(e),
    }
}

/// Handles `POST /students`: a malformed email fails with `BadClientData`
/// before the store is touched; a taken email fails with `UniqueViolation`;
/// otherwise the student is created with both timestamps set to `now`, the
/// caller's clock reading, and the returned record carries the requested
/// email.
pub fn create_student(db: &mut Db, req: CreateStudentRequest, now: Option<i64>) -> (r: Result<
    StudentResponse,
    ApiError,
>)
    requires
        old(db)@.wf(),
    ensures
        final(db)@.wf(),
        !valid_email(req.email@) ==> r == Err::<StudentResponse, ApiError>(ApiError::BadClientData)
            && final(db)@ == old(db)@,
        valid_email(req.email@) ==> {
            let row = requested_student_row(req.email@, req.phone_number.deep_view(), now);
            &&& final(db)@ == spec_create_student(old(db)@, row).0
            &&& student_response_matches(r, spec_create_student(old(db)@, row).1)
        },
        valid_email(req.email@) && !has_student_email(old(db)@, req.email@) && old(
            db,
        )@.next_student_id < i32::MAX ==> (r matches Ok(resp) && resp@.email == req.email@),
        valid_email(req.email@) && has_student_email(old(db)@, req.email@) ==> r == Err::<
            StudentResponse,
            ApiError,
        >(ApiError::UniqueViolation) && final(db)@ == old(db)@,
{
    if !validate_email(req.email.as_str()) {
        return Err(ApiError::BadClientData);
    }
    let new_student = NewStudent {
        email: req.email,
        phone_number: req.phone_number,
        created_at: now,
        updated_at: now,
    };
    match db.insert_student(new_student) {
        Ok(student) => Ok(StudentResponse::from(student)),
        Err(e) => Err(e),
    }
}

} // verus!
