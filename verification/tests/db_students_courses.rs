//! Tests of the enrollment repository functions.

use course_registry::db;
use course_registry::db::students_courses::{
    create_student_course, delete_student_course, get_courses_attended_by_student,
    get_students_in_course,
};
use course_registry::db::Db;

#[test]
fn db_functions_test_get_courses_attended_by_students() {
    let mut conn = Db::new();
    let student = db::create_student(&mut conn, "some_user@gmail.com").unwrap();
    let course_one = db::create_course(&mut conn, "data science").unwrap();
    let course_two = db::create_course(&mut conn, "machine learning").unwrap();
    create_student_course(&mut conn, student.id, course_one.id).unwrap();
    create_student_course(&mut conn, student.id, course_two.id).unwrap();

    let courses_attended = get_courses_attended_by_student(&conn, "some_user@gmail.com").unwrap();
    assert_eq!(
        vec!["data science", "machine learning"],
        courses_attended.into_iter().map(|item| item.name).collect::<Vec<String>>()
    );
}

#[test]
#[should_panic]
fn db_functions_test_get_courses_attended_by_students_student_not_found() {
    let mut conn = Db::new();
    let student = db::create_student(&mut conn, "some_user@gmail.com").unwrap();
    let course_one = db::create_course(&mut conn, "data science").unwrap();
    let course_two = db::create_course(&mut conn, "machine learning").unwrap();
    create_student_course(&mut conn, student.id, course_one.id).unwrap();
    create_student_course(&mut conn, student.id, course_two.id).unwrap();

    let courses_attended =
        get_courses_attended_by_student(&conn, "some_unknown_user@gmail.com").unwrap();
    assert_eq!(
        vec!["data science", "machine learning"],
        courses_attended.into_iter().map(|item| item.name).collect::<Vec<String>>()
    );
}

#[test]
fn db_functions_test_get_students_in_course() {
    let mut conn = Db::new();
    let student_one = db::create_student(&mut conn, "some_user@gmail.com").unwrap();
    let student_two = db::create_student(&mut conn, "some_user_two@gmail.com").unwrap();
    let course = db::create_course(&mut conn, "machine learning").unwrap();
    create_student_course(&mut conn, student_one.id, course.id).unwrap();
    create_student_course(&mut conn, student_two.id, course.id).unwrap();

    let students_in_course = get_students_in_course(&conn, "machine learning").unwrap();
    assert_eq!(
        vec!["some_user@gmail.com", "some_user_two@gmail.com"],
        students_in_course.into_iter().map(|item| item.email).collect::<Vec<String>>()
    );
}

#[test]
#[should_panic]
fn db_functions_test_get_students_in_course_course_not_found() {
    let mut conn = Db::new();
    let student_one = db::create_student(&mut conn, "some_user@gmail.com").unwrap();
    let student_two = db::create_student(&mut conn, "some_user_two@gmail.com").unwrap();
    let course = db::create_course(&mut conn, "machine learning").unwrap();
    create_student_course(&mut conn, student_one.id, course.id).unwrap();
    create_student_course(&mut conn, student_two.id, course.id).unwrap();

    let students_in_course = get_students_in_course(&conn, "culinary").unwrap();
    assert_eq!(
        vec!["some_user@gmail.com", "some_user_two@gmail.com"],
        students_in_course.into_iter().map(|item| item.email).collect::<Vec<String>>()
    );
}

#[test]
fn test_create_student_course() {
    let mut conn = Db::new();
    let student = db::create_student(&mut conn, "some_user@gmail.com").unwrap();
    let course = db::create_course(&mut conn, "machine learning").unwrap();
    create_student_course(&mut conn, student.id, course.id).unwrap();
}

#[test]
#[should_panic]
fn db_functions_test_create_student_course_duplicate() {
    let mut conn = Db::new();
    let student = db::create_student(&mut conn, "some_user@gmail.com").unwrap();
    let course = db::create_course(&mut conn, "machine learning").unwrap();
    create_student_course(&mut conn, student.id, course.id).unwrap();
    create_student_course(&mut conn, student.id, course.id).unwrap();
}

#[test]
fn test_delete_student_course() {
    let mut conn = Db::new();
    let student = db::create_student(&mut conn, "some_user@gmail.com").unwrap();
    let course = db::create_course(&mut conn, "machine learning").unwrap();
    create_student_course(&mut conn, student.id, course.id).unwrap();
    delete_student_course(&mut conn, student.id, course.id).unwrap();
}
