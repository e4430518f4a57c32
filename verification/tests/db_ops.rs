//! Tests of the top-level repository functions over a fresh store.

use course_registry::db;
use course_registry::db::Db;

#[test]
fn db_test_create_student() {
    let mut conn = Db::new();
    let student = db::create_student(&mut conn, "test_user@gmail.com").unwrap();
    assert_eq!("test_user@gmail.com", student.email);
}

#[test]
fn db_test_get_student() {
    let mut conn = Db::new();
    db::create_student(&mut conn, "test_user@gmail.com").unwrap();
    let student = db::get_student(&conn, "test_user@gmail.com").unwrap();
    assert_eq!("test_user@gmail.com", student.email);
}

#[test]
#[should_panic]
fn db_test_get_student_not_found() {
    let mut conn = Db::new();
    db::create_student(&mut conn, "test_user@gmail.com").unwrap();
    let _student = db::get_student(&conn, "test_user_two@gmail.com").unwrap();
}

#[test]
#[should_panic]
fn db_test_create_student_not_unique_email() {
    let mut conn = Db::new();
    db::create_student(&mut conn, "test_user@gmail.com").unwrap();
    db::create_student(&mut conn, "test_user@gmail.com").unwrap();
}

#[test]
fn db_test_create_course() {
    let mut conn = Db::new();
    let course = db::create_course(&mut conn, "mathematics").unwrap();
    assert_eq!("mathematics", course.name);
}

#[test]
fn db_test_get_course() {
    let mut conn = Db::new();
    db::create_course(&mut conn, "mathematics").unwrap();
    let course = db::get_course(&conn, "mathematics").unwrap();
    assert_eq!("mathematics", course.name);
}

#[test]
#[should_panic]
fn db_test_get_course_not_found() {
    let mut conn = Db::new();
    db::create_student(&mut conn, "mathematics").unwrap();
    let _student = db::get_student(&conn, "physics").unwrap();
}

#[test]
#[should_panic]
fn db_test_create_course_not_unique_name() {
    let mut conn = Db::new();
    db::create_student(&mut conn, "mathematics").unwrap();
    db::create_student(&mut conn, "mathematics").unwrap();
}

#[test]
fn db_test_get_courses_attended_by_students() {
    let mut conn = Db::new();
    let student = db::create_student(&mut conn, "some_user@gmail.com").unwrap();
    let course_one = db::create_course(&mut conn, "data science").unwrap();
    let course_two = db::create_course(&mut conn, "machine learning").unwrap();
    db::create_student_course(&mut conn, student.id, course_one.id).unwrap();
    db::create_student_course(&mut conn, student.id, course_two.id).unwrap();

    let courses_attended = db::get_courses_attended_by_student(&conn, "some_user@gmail.com")
        .unwrap();
    assert_eq!(
        vec!["data science", "machine learning"],
        courses_attended.into_iter().map(|item| item.name).collect::<Vec<String>>()
    );
}

#[test]
#[should_panic]
fn db_test_get_courses_attended_by_students_student_not_found() {
    let mut conn = Db::new();
    let student = db::create_student(&mut conn, "some_user@gmail.com").unwrap();
    let course_one = db::create_course(&mut conn, "data science").unwrap();
    let course_two = db::create_course(&mut conn, "machine learning").unwrap();
    db::create_student_course(&mut conn, student.id, course_one.id).unwrap();
    db::create_student_course(&mut conn, student.id, course_two.id).unwrap();

    let courses_attended = db::get_courses_attended_by_student(&conn, "some_unknown_user@gmail.com")
        .unwrap();
    assert_eq!(
        vec!["data science", "machine learning"],
        courses_attended.into_iter().map(|item| item.name).collect::<Vec<String>>()
    );
}

#[test]
fn db_test_get_students_in_course() {
    let mut conn = Db::new();
    let student_one = db::create_student(&mut conn, "some_user@gmail.com").unwrap();
    let student_two = db::create_student(&mut conn, "some_user_two@gmail.com").unwrap();
    let course = db::create_course(&mut conn, "machine learning").unwrap();
    db::create_student_course(&mut conn, student_one.id, course.id).unwrap();
    db::create_student_course(&mut conn, student_two.id, course.id).unwrap();

    let students_in_course = db::get_students_in_course(&conn, "machine learning").unwrap();
    assert_eq!(
        vec!["some_user@gmail.com", "some_user_two@gmail.com"],
        students_in_course.into_iter().map(|item| item.email).collect::<Vec<String>>()
    );
}

#[test]
#[should_panic]
fn db_test_get_students_in_course_course_not_found() {
    let mut conn = Db::new();
    let student_one = db::create_student(&mut conn, "some_user@gmail.com").unwrap();
    let student_two = db::create_student(&mut conn, "some_user_two@gmail.com").unwrap();
    let course = db::create_course(&mut conn, "machine learning").unwrap();
    db::create_student_course(&mut conn, student_one.id, course.id).unwrap();
    db::create_student_course(&mut conn, student_two.id, course.id).unwrap();

    let students_in_course = db::get_students_in_course(&conn, "culinary").unwrap();
    assert_eq!(
        vec!["some_user@gmail.com", "some_user_two@gmail.com"],
        students_in_course.into_iter().map(|item| item.email).collect::<Vec<String>>()
    );
}
