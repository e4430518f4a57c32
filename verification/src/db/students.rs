//! The student entity and its repository operations.

use vstd::prelude::*;

use crate::api::errors::ApiError;
use crate::api::students::CreateStudentRequest;
use crate::db::Db;
use crate::model::{NewStudentModel, StudentModel};

verus! {

/// One student row.  Timestamps are kept as seconds since the Unix epoch;
/// reading the clock and rendering the values is left to the caller.
#[derive(Debug, Clone, PartialEq)]
pub struct Student {
    pub id: i32,
    pub email: String,
    pub phone_number: Option<String>,
    pub created_at: Option<i64>,
    pub updated_at: Option<i64>,
}

impl View for Student {
    type V = StudentModel;

    open spec fn view(&self) -> StudentModel {
        StudentModel {
            id: self.id as int,
            email: self.email@,
            phone_number: self.phone_number.deep_view(),
            created_at: match self.created_at {
                Some(t) => Some(t as int),
                None => None,
            },
            updated_at: match self.updated_at {
                Some(t) => Some(t as int),
                None => None,
            },
        }
    }
}

impl DeepView for Student {
    type V = StudentModel;

    open spec fn deep_view(&self) -> StudentModel {
        self.view()
    }
}

/// A student row to be inserted; the store assigns the identifier.
#[derive(Debug, Clone)]
pub struct NewStudent {
    pub email: String,
    pub phone_number: Option<String>,
    pub created_at: Option<i64>,
    pub updated_at: Option<i64>,
}

impl View for NewStudent {
    type V = NewStudentModel;

    open spec fn view(&self) -> NewStudentModel {
        NewStudentModel {
            email: self.email@,
            phone_number: self.phone_number.deep_view(),
            created_at: match self.created_at {
                Some(t) => Some(t as int),
                None => None,
            },
            updated_at: match self.updated_at {
                Some(t) => Some(t as int),
                None => None,
            },
        }
    }
}

/// Inserts a student row, per [`crate::model::spec_create_student`]: fails
/// with `UniqueViolation` exactly when the email is already taken.
pub fn create_student(db: &mut Db, new_student: NewStudent) -> (r: Result<Student, ApiError>)
    ensures
        final(db)@ == crate::model::spec_create_student(old(db)@, new_student@).0,
        crate::db::student_result_matches(
            r,
            crate::model::spec_create_student(old(db)@, new_student@).1,
        ),
        old(db)@.wf() ==> final(db)@.wf(),
{
    db.insert_student(new_student)
}

/// Fetches the student row carrying this email, per
/// [`crate::model::spec_get_student`]: fails with `NotFound` exactly when no
/// row matches.
pub fn get_student(db: &Db, email: &str) -> (r: Result<Student, ApiError>)
    requires
        db@.wf(),
    ensures
        crate::db::student_result_matches(r, crate::model::spec_get_student(db@, email@)),
{
    db.find_student(email)
}

/// Deletes the student row carrying this email, per
/// [`crate::model::spec_delete_student`]: reports how many rows were removed
/// (0 or 1); an absent row is not an error.
pub fn delete_student(db: &mut Db, student_email: &str) -> (r: Result<usize, ApiError>)
    requires
        old(db)@.wf(),
    ensures
        final(db)@ == crate::model::spec_delete_student(old(db)@, student_email@).0,
        r == crate::model::spec_delete_student(old(db)@, student_email@).1,
        final(db)@.wf(),
{
    db.remove_student(student_email)
}

impl From<CreateStudentRequest> for NewStudent {
    /// The row a creation request asks for.  The store's clock is read by
    /// the caller of [`crate::api::students::create_student`], so the
    /// timestamps start out empty here.
    fn from(value: CreateStudentRequest) -> (row: Self) {
        NewStudent {
            email: value.email,
            phone_number: value.phone_number,
            created_at: None,
            updated_at: None,
        }
    }
}

impl vstd::std_specs::convert::FromSpecImpl<CreateStudentRequest> for NewStudent {
    open spec fn obeys_from_spec() -> bool {
        true
    }

    open spec fn from_spec(value: CreateStudentRequest) -> Self {
        NewStudent {
            email: value.email,
            phone_number: value.phone_number,
            created_at: None,
            updated_at: None,
        }
    }
}

impl Default for NewStudent {
    /// An empty row: no email, no phone number, no timestamps.
    fn default() -> (row: Self)
        ensures
            row@ == (NewStudentModel {
                email: Seq::<char>::empty(),
                phone_number: None,
                created_at: None,
                updated_at: None,
            }),
    {
        NewStudent { email: String::new(), phone_number: None, created_at: None, updated_at: None }
    }
}

} // verus!
