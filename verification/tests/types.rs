//! Tests of the request/response conversions and of identifier assignment.

use course_registry::api::courses::{CourseResponse, CreateCourseRequest};
use course_registry::api::students::{CreateStudentRequest, StudentResponse};
use course_registry::db;
use course_registry::db::courses::{Course, NewCourse};
use course_registry::db::students::{NewStudent, Student};
use course_registry::db::Db;

#[test]
fn new_student_from_request_carries_fields_and_no_timestamps() {
    let request = CreateStudentRequest {
        email: String::from("from@mail.com"),
        phone_number: Some(String::from("12345")),
    };
    let row = NewStudent::from(request);
    assert_eq!(row.email, "from@mail.com");
    assert_eq!(row.phone_number, Some(String::from("12345")));
    assert_eq!(row.created_at, None);
    assert_eq!(row.updated_at, None);
}

#[test]
fn new_course_from_request_carries_fields() {
    let request = CreateCourseRequest {
        name: String::from("sailing"),
        course_desc: Some(String::from("knots and tides")),
    };
    let row = NewCourse::from(request);
    assert_eq!(row.name, "sailing");
    assert_eq!(row.course_desc, Some(String::from("knots and tides")));
}

#[test]
fn student_response_from_row_keeps_every_field() {
    let row = Student {
        id: 9,
        email: String::from("resp@mail.com"),
        phone_number: None,
        created_at: Some(100),
        updated_at: Some(200),
    };
    let resp = StudentResponse::from(row);
    assert_eq!(resp.id, 9);
    assert_eq!(resp.email, "resp@mail.com");
    assert_eq!(resp.phone_number, None);
    assert_eq!(resp.created_at, Some(100));
    assert_eq!(resp.updated_at, Some(200));
}

#[test]
fn course_response_from_row_keeps_id_and_name() {
    let row = Course {
        id: 4,
        name: String::from("pottery"),
        course_desc: Some(String::from("wheel work")),
    };
    let resp = CourseResponse::from(row);
    assert_eq!(resp.id, 4);
    assert_eq!(resp.name, "pottery");
}

#[test]
fn default_rows_are_empty() {
    let student = NewStudent::default();
    assert_eq!(student.email, "");
    assert_eq!(student.phone_number, None);
    assert_eq!(student.created_at, None);
    assert_eq!(student.updated_at, None);
    let course = NewCourse::default();
    assert_eq!(course.name, "");
    assert_eq!(course.course_desc, None);
}

#[test]
fn identifiers_are_assigned_in_order_and_never_reused() {
    let mut conn = Db::new();
    let a = db::create_student(&mut conn, "one@mail.com").unwrap();
    let b = db::create_student(&mut conn, "two@mail.com").unwrap();
    assert_eq!(a.id, 1);
    assert_eq!(b.id, 2);
    assert_eq!(db::students::delete_student(&mut conn, "one@mail.com").unwrap(), 1);
    let c = db::create_student(&mut conn, "one@mail.com").unwrap();
    assert_eq!(c.id, 3);
}
