use course_registry::error::{decimal_text, EntityKind, Error};

#[test]
fn numbers_are_written_in_decimal() {
    assert_eq!(decimal_text(0), "0");
    assert_eq!(decimal_text(7), "7");
    assert_eq!(decimal_text(10), "10");
    assert_eq!(decimal_text(1234567890), "1234567890");
    assert_eq!(decimal_text(u64::MAX), "18446744073709551615");
}

#[test]
fn not_found_names_the_kind_and_the_identifier() {
    assert_eq!(
        Error::not_found(EntityKind::Course, true, 42),
        Error::NotFound { msg: "a course with id=42 not found".to_string() }
    );
    assert_eq!(
        Error::not_found(EntityKind::Lesson, false, 0),
        Error::NotFound { msg: "lesson with id=0 not found".to_string() }
    );
    assert_eq!(
        Error::not_found(EntityKind::Certificate, false, 105),
        Error::NotFound { msg: "certificate with id=105 not found".to_string() }
    );
    assert_eq!(
        Error::not_found(EntityKind::User, true, u64::MAX),
        Error::NotFound { msg: "a user with id=18446744073709551615 not found".to_string() }
    );
}
