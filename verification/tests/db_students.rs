//! Tests of the student repository functions.

use course_registry::db::students::{create_student, get_student, NewStudent};
use course_registry::db::Db;

#[test]
fn db_functions_test_create_student() {
    let mut conn = Db::new();
    let new_student = NewStudent { email: String::from("test_user@gmail.com"), ..Default::default() };
    let student = create_student(&mut conn, new_student).unwrap();
    assert_eq!("test_user@gmail.com", student.email);
}

#[test]
fn db_functions_test_get_student() {
    let mut conn = Db::new();
    let new_student = NewStudent { email: String::from("test_user@gmail.com"), ..Default::default() };
    create_student(&mut conn, new_student).unwrap();
    let student = get_student(&conn, "test_user@gmail.com").unwrap();
    assert_eq!("test_user@gmail.com", student.email);
}

#[test]
#[should_panic]
fn db_functions_test_get_student_not_found() {
    let mut conn = Db::new();
    let new_student = NewStudent { email: String::from("test_user@gmail.com"), ..Default::default() };
    create_student(&mut conn, new_student).unwrap();
    let _student = get_student(&conn, "test_user_two@gmail.com").unwrap();
}

#[test]
#[should_panic]
fn db_functions_test_create_student_not_unique_email() {
    let mut conn = Db::new();
    let new_student = NewStudent { email: String::from("test_user@gmail.com"), ..Default::default() };
    create_student(&mut conn, new_student.clone()).unwrap();
    create_student(&mut conn, new_student).unwrap();
}
