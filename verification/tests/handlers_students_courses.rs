//! Tests of the enrollment handlers.

use course_registry::api::courses::{create_course, CreateCourseRequest};
use course_registry::api::errors::ApiError;
use course_registry::api::students::{create_student, CreateStudentRequest};
use course_registry::api::students_courses::{
    create_student_course, delete_student_course, fetch_students_in_course,
    get_courses_for_student, CreateStudentCourseRequest, DeleteStudentCourseRequest,
    GetStudentCourseByCourseRequest, GetStudentCourseByStudentRequest,
};
use course_registry::db::Db;

fn is_client_error(e: &ApiError) -> bool {
    let code = e.status_code();
    (400..500).contains(&code)
}

fn setup(db: &mut Db, email: &str, course: &str) {
    create_student(
        db,
        CreateStudentRequest { email: String::from(email), phone_number: None },
        Some(0),
    )
    .unwrap();
    create_course(db, CreateCourseRequest { name: String::from(course), course_desc: None })
        .unwrap();
}

#[test]
fn test_create_and_delete_student_course_happy_path() {
    let mut db = Db::new();
    let email = String::from("test_student_one@gmail.com");
    let course = String::from("test_course_one");
    setup(&mut db, &email, &course);

    let resp = create_student_course(&mut db, &CreateStudentCourseRequest {
        student_email: email.clone(),
        course_name: course.clone(),
    });
    assert!(resp.is_ok());

    let resp = delete_student_course(&mut db, &DeleteStudentCourseRequest {
        student_email: email.clone(),
        course_name: course.clone(),
    });
    assert!(resp.is_ok());
}

#[test]
fn test_create_student_course_no_student_found() {
    let mut db = Db::new();
    let email = String::from("test_student_two@gmail.com");
    let course = String::from("test_course_two");
    create_course(&mut db, CreateCourseRequest { name: course.clone(), course_desc: None })
        .unwrap();

    let resp = create_student_course(&mut db, &CreateStudentCourseRequest {
        student_email: email,
        course_name: course,
    });
    assert!(is_client_error(&resp.unwrap_err()));
}

#[test]
fn test_create_student_course_no_course_found() {
    let mut db = Db::new();
    let email = String::from("test_student_three@gmail.com");
    let course = String::from("test_course_three");
    create_student(
        &mut db,
        CreateStudentRequest { email: email.clone(), phone_number: None },
        Some(0),
    )
    .unwrap();

    let resp = create_student_course(&mut db, &CreateStudentCourseRequest {
        student_email: email,
        course_name: course,
    });
    assert!(is_client_error(&resp.unwrap_err()));
}

#[test]
fn handlers_test_create_student_course_duplicate() {
    let mut db = Db::new();
    let email = String::from("test_student_four@gmail.com");
    let course = String::from("test_course_four");
    setup(&mut db, &email, &course);

    let request = CreateStudentCourseRequest {
        student_email: email.clone(),
        course_name: course.clone(),
    };
    let resp = create_student_course(&mut db, &request);
    assert!(resp.is_ok());

    let resp = create_student_course(&mut db, &request);
    assert!(is_client_error(&resp.unwrap_err()));

    let resp = delete_student_course(&mut db, &DeleteStudentCourseRequest {
        student_email: email.clone(),
        course_name: course.clone(),
    });
    assert!(resp.is_ok());
}

#[test]
fn test_fetch_courses_attended_by_student() {
    let mut db = Db::new();
    let email = String::from("test_student_five@gmail.com");
    let course = String::from("test_course_five");
    setup(&mut db, &email, &course);

    let resp = create_student_course(&mut db, &CreateStudentCourseRequest {
        student_email: email.clone(),
        course_name: course.clone(),
    });
    assert!(resp.is_ok());

    let resp = get_courses_for_student(&db, &GetStudentCourseByStudentRequest {
        student_email: email.clone(),
    });
    assert!(resp.is_ok());

    let resp = delete_student_course(&mut db, &DeleteStudentCourseRequest {
        student_email: email.clone(),
        course_name: course.clone(),
    });
    assert!(resp.is_ok());
}

#[test]
fn test_fetch_courses_attended_by_student_no_courses() {
    let mut db = Db::new();
    let email = String::from("test_student_six@gmail.com");
    let course = String::from("test_course_six");
    setup(&mut db, &email, &course);

    let resp = get_courses_for_student(&db, &GetStudentCourseByStudentRequest {
        student_email: email.clone(),
    });
    assert!(resp.is_ok());
}

#[test]
fn test_fetch_students_in_course() {
    let mut db = Db::new();
    let email = String::from("test_student_seven@gmail.com");
    let course = String::from("test_course_seven");
    setup(&mut db, &email, &course);

    let resp = create_student_course(&mut db, &CreateStudentCourseRequest {
        student_email: email.clone(),
        course_name: course.clone(),
    });
    assert!(resp.is_ok());

    let resp = fetch_students_in_course(&db, &GetStudentCourseByCourseRequest {
        course_name: course.clone(),
    });
    assert!(resp.is_ok());

    let resp = delete_student_course(&mut db, &DeleteStudentCourseRequest {
        student_email: email.clone(),
        course_name: course.clone(),
    });
    assert!(resp.is_ok());
}

#[test]
fn test_fetch_students_in_course_no_student() {
    let mut db = Db::new();
    let email = String::from("test_student_eight@gmail.com");
    let course = String::from("test_course_eight");
    setup(&mut db, &email, &course);

    let resp = fetch_students_in_course(&db, &GetStudentCourseByCourseRequest {
        course_name: course.clone(),
    });
    assert!(resp.is_ok());
}
