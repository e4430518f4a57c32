//! Tests of the course handlers.

use course_registry::api::courses::{create_course, get_course, CreateCourseRequest, GetCourseRequest};
use course_registry::api::errors::ApiError;
use course_registry::db::Db;

fn is_client_error(e: &ApiError) -> bool {
    let code = e.status_code();
    (400..500).contains(&code)
}

#[test]
fn test_create_course_happy_path() {
    let mut db = Db::new();
    let request = CreateCourseRequest { name: String::from("pizza making"), course_desc: None };
    let resp = create_course(&mut db, request);
    assert!(resp.is_ok());
}

#[test]
fn test_create_course_duplicate() {
    let mut db = Db::new();
    let request = CreateCourseRequest { name: String::from("pizza baking"), course_desc: None };
    create_course(&mut db, request.clone()).unwrap();
    let resp = create_course(&mut db, request);
    assert!(is_client_error(&resp.unwrap_err()));
}

#[test]
fn test_get_course_happy_path() {
    let mut db = Db::new();
    let request = CreateCourseRequest { name: String::from("astronomy"), course_desc: None };
    create_course(&mut db, request.clone()).unwrap();
    let resp = get_course(&db, &GetCourseRequest { name: request.name });
    assert!(resp.is_ok());
}

#[test]
fn handlers_test_get_course_not_found() {
    let db = Db::new();
    let resp = get_course(&db, &GetCourseRequest { name: String::from("astrology") });
    assert!(is_client_error(&resp.unwrap_err()));
}
