//! Tests of the email format validation.

use course_registry::api::utils::validate_email;

#[test]
fn test_valid_email_format() {
    assert_eq!(validate_email("foo@bar.com"), true);
}

#[test]
fn test_invalid_email_format() {
    assert_eq!(validate_email("invalid email"), false);
}

#[test]
fn email_local_part_characters() {
    assert_eq!(validate_email("a@x.com"), true);
    assert_eq!(validate_email("a_b+c.d@x.com"), true);
    assert_eq!(validate_email(".a@x.com"), false);
    assert_eq!(validate_email("a.@x.com"), false);
    assert_eq!(validate_email("Foo@bar.com"), false);
    assert_eq!(validate_email("@x.com"), false);
}

#[test]
fn email_domain_shape() {
    assert_eq!(validate_email("foo@a-b.c-d.com"), true);
    assert_eq!(validate_email("foo@bar.c"), false);
    assert_eq!(validate_email("foo@.com"), false);
    assert_eq!(validate_email("foo@bar..com"), false);
    assert_eq!(validate_email("foo@bar"), false);
    assert_eq!(validate_email("foo"), false);
    assert_eq!(validate_email(""), false);
}

#[test]
fn email_match_is_anchored_at_start_only() {
    // The pattern permits trailing characters after a match, but nothing
    // before the local part.
    assert_eq!(validate_email("foo@bar.com extra"), true);
    assert_eq!(validate_email("foo@bar.com.uk"), true);
    assert_eq!(validate_email(" foo@bar.com"), false);
}

#[test]
fn email_top_level_domain_length() {
    assert_eq!(validate_email("foo@bar.co"), true);
    assert_eq!(validate_email("foo@bar.museum"), true);
    // Seven letters still match: the first six complete the pattern and the
    // seventh is trailing input.
    assert_eq!(validate_email("foo@bar.museums"), true);
}
