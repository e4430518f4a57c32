//! Scenario tests of the enrollment life cycle, the error taxonomy, and the
//! configuration decisions.

use course_registry::api::courses::{create_course, CreateCourseRequest};
use course_registry::api::errors::ApiError;
use course_registry::api::students::{create_student, get_student, CreateStudentRequest, GetStudentRequest};
use course_registry::api::students_courses::{
    create_student_course, delete_student_course, fetch_students_in_course,
    get_courses_for_student, CreateStudentCourseRequest, DeleteStudentCourseRequest,
    GetStudentCourseByCourseRequest, GetStudentCourseByStudentRequest,
};
use course_registry::config::get_binding_address;
use course_registry::db;
use course_registry::db::Db;

fn student_request(email: &str) -> CreateStudentRequest {
    CreateStudentRequest { email: String::from(email), phone_number: None }
}

fn course_request(name: &str) -> CreateCourseRequest {
    CreateCourseRequest { name: String::from(name), course_desc: None }
}

fn enrollment_request(email: &str, name: &str) -> CreateStudentCourseRequest {
    CreateStudentCourseRequest {
        student_email: String::from(email),
        course_name: String::from(name),
    }
}

#[test]
fn fresh_valid_email_creates_student_with_that_email() {
    let mut db = Db::new();
    let resp = create_student(&mut db, student_request("fresh@mail.com"), Some(7)).unwrap();
    assert_eq!(resp.email, "fresh@mail.com");
    assert_eq!(resp.id, 1);
    assert_eq!(resp.created_at, Some(7));
    assert_eq!(resp.updated_at, Some(7));
}

#[test]
fn duplicate_email_fails_with_unique_violation() {
    let mut db = Db::new();
    create_student(&mut db, student_request("dup@mail.com"), None).unwrap();
    let resp = create_student(&mut db, student_request("dup@mail.com"), None);
    assert_eq!(resp.unwrap_err(), ApiError::UniqueViolation);
}

#[test]
fn malformed_email_fails_with_bad_client_data() {
    let mut db = Db::new();
    let resp = create_student(&mut db, student_request("invalid email"), None);
    assert_eq!(resp.unwrap_err(), ApiError::BadClientData);
    // The store was never touched: the email is still free for a valid
    // request, and no student exists.
    let lookup = get_student(&db, &GetStudentRequest { email: String::from("invalid email") });
    assert_eq!(lookup.unwrap_err(), ApiError::NotFound);
}

#[test]
fn unknown_email_fails_with_not_found() {
    let db = Db::new();
    let resp = get_student(&db, &GetStudentRequest { email: String::from("nobody@mail.com") });
    assert_eq!(resp.unwrap_err(), ApiError::NotFound);
}

#[test]
fn enroll_succeeds_exactly_once_and_is_not_permanently_blocked() {
    let mut db = Db::new();
    create_student(&mut db, student_request("once@mail.com"), None).unwrap();
    create_course(&mut db, course_request("geometry")).unwrap();

    let request = enrollment_request("once@mail.com", "geometry");
    assert!(create_student_course(&mut db, &request).is_ok());
    assert_eq!(create_student_course(&mut db, &request).unwrap_err(), ApiError::UniqueViolation);

    let removed = delete_student_course(&mut db, &DeleteStudentCourseRequest {
        student_email: String::from("once@mail.com"),
        course_name: String::from("geometry"),
    })
    .unwrap();
    assert_eq!(removed, 1);

    assert!(create_student_course(&mut db, &request).is_ok());
}

#[test]
fn enroll_unknown_student_fails_without_creating_a_row() {
    let mut db = Db::new();
    create_course(&mut db, course_request("history")).unwrap();

    let resp = create_student_course(&mut db, &enrollment_request("ghost@mail.com", "history"));
    assert_eq!(resp.unwrap_err(), ApiError::NotFound);

    let students = fetch_students_in_course(&db, &GetStudentCourseByCourseRequest {
        course_name: String::from("history"),
    })
    .unwrap();
    assert!(students.is_empty());
}

#[test]
fn enroll_unknown_course_fails_with_not_found() {
    let mut db = Db::new();
    create_student(&mut db, student_request("alone@mail.com"), None).unwrap();

    let resp = create_student_course(&mut db, &enrollment_request("alone@mail.com", "nowhere"));
    assert_eq!(resp.unwrap_err(), ApiError::NotFound);
}

#[test]
fn student_without_enrollments_has_empty_course_list() {
    let mut db = Db::new();
    create_student(&mut db, student_request("idle@mail.com"), None).unwrap();

    let courses = get_courses_for_student(&db, &GetStudentCourseByStudentRequest {
        student_email: String::from("idle@mail.com"),
    })
    .unwrap();
    assert_eq!(courses, Vec::<String>::new());
}

#[test]
fn students_in_course_is_exactly_the_enrolled_set() {
    // Whatever order the enrollment rows are inserted in, the listing holds
    // exactly the enrolled students, each once.
    let mut db = Db::new();
    create_student(&mut db, student_request("first@mail.com"), None).unwrap();
    create_student(&mut db, student_request("second@mail.com"), None).unwrap();
    create_student(&mut db, student_request("third@mail.com"), None).unwrap();
    create_course(&mut db, course_request("logic")).unwrap();

    create_student_course(&mut db, &enrollment_request("second@mail.com", "logic")).unwrap();
    create_student_course(&mut db, &enrollment_request("first@mail.com", "logic")).unwrap();

    let mut emails = fetch_students_in_course(&db, &GetStudentCourseByCourseRequest {
        course_name: String::from("logic"),
    })
    .unwrap();
    assert_eq!(emails, vec!["second@mail.com", "first@mail.com"]);
    emails.sort();
    assert_eq!(emails, vec!["first@mail.com", "second@mail.com"]);
}

#[test]
fn enroll_then_unenroll_round_trip() {
    let mut db = Db::new();
    create_student(&mut db, student_request("a@x.com"), None).unwrap();
    create_course(&mut db, course_request("algebra")).unwrap();
    create_student_course(&mut db, &enrollment_request("a@x.com", "algebra")).unwrap();

    let listed = get_courses_for_student(&db, &GetStudentCourseByStudentRequest {
        student_email: String::from("a@x.com"),
    })
    .unwrap();
    assert_eq!(listed, vec!["algebra"]);

    delete_student_course(&mut db, &DeleteStudentCourseRequest {
        student_email: String::from("a@x.com"),
        course_name: String::from("algebra"),
    })
    .unwrap();

    let listed = get_courses_for_student(&db, &GetStudentCourseByStudentRequest {
        student_email: String::from("a@x.com"),
    })
    .unwrap();
    assert_eq!(listed, Vec::<String>::new());
}

#[test]
fn unenroll_of_absent_pair_reports_zero() {
    let mut db = Db::new();
    create_student(&mut db, student_request("calm@mail.com"), None).unwrap();
    create_course(&mut db, course_request("drawing")).unwrap();

    let removed = delete_student_course(&mut db, &DeleteStudentCourseRequest {
        student_email: String::from("calm@mail.com"),
        course_name: String::from("drawing"),
    })
    .unwrap();
    assert_eq!(removed, 0);
}

#[test]
fn enrolled_student_cannot_be_deleted() {
    let mut db = Db::new();
    let student = db::create_student(&mut db, "held@mail.com").unwrap();
    let course = db::create_course(&mut db, "painting").unwrap();
    db::create_student_course(&mut db, student.id, course.id).unwrap();

    let resp = db::students::delete_student(&mut db, "held@mail.com");
    assert_eq!(resp.unwrap_err(), ApiError::InternalError);

    db::delete_student_course(&mut db, student.id, course.id).unwrap();
    assert_eq!(db::students::delete_student(&mut db, "held@mail.com").unwrap(), 1);
    assert_eq!(db::students::delete_student(&mut db, "held@mail.com").unwrap(), 0);
}

#[test]
fn enrollment_with_unknown_identifiers_is_an_internal_error() {
    let mut db = Db::new();
    let resp = db::create_student_course(&mut db, 41, 42);
    assert_eq!(resp.unwrap_err(), ApiError::InternalError);
}

#[test]
fn deleting_attended_course_is_restricted() {
    let mut db = Db::new();
    let student = db::create_student(&mut db, "kept@mail.com").unwrap();
    let course = db::create_course(&mut db, "weaving").unwrap();
    db::create_student_course(&mut db, student.id, course.id).unwrap();

    let resp = db::courses::delete_course(&mut db, "weaving");
    assert_eq!(resp.unwrap_err(), ApiError::InternalError);

    db::delete_student_course(&mut db, student.id, course.id).unwrap();
    assert_eq!(db::courses::delete_course(&mut db, "weaving").unwrap(), 1);
    assert_eq!(db::courses::delete_course(&mut db, "weaving").unwrap(), 0);
}

#[test]
fn error_status_codes() {
    assert_eq!(ApiError::NotFound.status_code(), 404);
    assert_eq!(ApiError::UniqueViolation.status_code(), 409);
    assert_eq!(ApiError::BadClientData.status_code(), 400);
    assert_eq!(ApiError::InternalError.status_code(), 500);
}

#[test]
fn error_messages() {
    assert_eq!(ApiError::NotFound.message(), "Not Found");
    assert_eq!(ApiError::UniqueViolation.message(), "Conflict");
    assert_eq!(ApiError::BadClientData.message(), "Bad Request");
    assert_eq!(ApiError::InternalError.message(), "Internal Server Error occurred");
}

#[test]
fn binding_address_follows_deployment_mode() {
    assert_eq!(get_binding_address("DEV"), Some("127.0.0.1"));
    assert_eq!(get_binding_address("DOCKER"), Some("0.0.0.0"));
    assert_eq!(get_binding_address("STAGING"), None);
}
