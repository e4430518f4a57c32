//! Tests of the course repository functions.

use course_registry::db::courses::{create_course, get_course, NewCourse};
use course_registry::db::Db;

#[test]
fn db_functions_test_create_course() {
    let mut conn = Db::new();
    let new_course = NewCourse { name: String::from("mathematics"), ..Default::default() };
    let course = create_course(&mut conn, new_course).unwrap();
    assert_eq!("mathematics", course.name);
}

#[test]
fn db_functions_test_get_course() {
    let mut conn = Db::new();
    let new_course = NewCourse { name: String::from("mathematics"), ..Default::default() };
    create_course(&mut conn, new_course).unwrap();
    let course = get_course(&conn, "mathematics").unwrap();
    assert_eq!("mathematics", course.name);
}

#[test]
#[should_panic]
fn db_functions_test_get_course_not_found() {
    let mut conn = Db::new();
    let new_course = NewCourse { name: String::from("mathematics"), ..Default::default() };
    let _course = create_course(&mut conn, new_course).unwrap();
    let _course = get_course(&conn, "physics").unwrap();
}

#[test]
#[should_panic]
fn db_functions_test_create_course_not_unique_name() {
    let mut conn = Db::new();
    let new_course = NewCourse { name: String::from("mathematics"), ..Default::default() };
    create_course(&mut conn, new_course.clone()).unwrap();
    create_course(&mut conn, new_course).unwrap();
}
