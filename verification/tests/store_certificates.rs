use course_registry::certificate::Certificate;
use course_registry::course::CoursePayload;
use course_registry::error::Error;
use course_registry::store::Store;

const ALICE: &str = "2vxsx-fae";
const BOB: &str = "rrkah-fqaaa-aaaaa-aaaaq-cai";

fn not_found(msg: &str) -> Error {
    Error::NotFound { msg: msg.to_string() }
}

fn store_with_course() -> Store {
    let mut store = Store::new();
    let course = CoursePayload { title: "Algebra I".to_string(), description: String::new() };
    store.add_course(course, ALICE, 10).unwrap();
    store
}

#[test]
fn issue_certificate_returns_and_stores_the_certificate() {
    let mut store = store_with_course();
    let made = store.issue_certificate(77, 0, ALICE, 500).unwrap();
    assert_eq!(made, Certificate { id: 1, course_id: 0, user_id: 77, issue_date: 500 });
    assert_eq!(store.get_certificate(1), Ok(made));
    assert_eq!(store._get_certificate(&1), Some(made));
    assert_eq!(store.next_id(), 2);
}

#[test]
fn issue_certificate_does_not_ask_that_the_user_exists() {
    let mut store = store_with_course();
    assert_eq!(store._get_user(&12345), None);
    assert!(store.issue_certificate(12345, 0, ALICE, 500).is_ok());
}

#[test]
fn issue_certificate_for_a_missing_course_is_not_found() {
    let mut store = store_with_course();
    assert_eq!(
        store.issue_certificate(1, 8, ALICE, 500),
        Err(not_found("course with id=8 not found"))
    );
    assert_eq!(store.next_id(), 1);
}

#[test]
fn issue_certificate_by_another_caller_is_refused_and_changes_nothing() {
    let mut store = store_with_course();
    assert_eq!(store.issue_certificate(1, 0, BOB, 500), Err(Error::NotCreator));
    assert_eq!(store._get_certificate(&1), None);
    assert_eq!(store.next_id(), 1);
}

#[test]
fn issue_certificate_is_ready_where_identifiers_are_left_or_it_will_be_refused() {
    let store = store_with_course();
    assert!(store.issue_certificate_ready(0, ALICE));
    assert!(store.issue_certificate_ready(0, BOB));
    assert!(store.issue_certificate_ready(8, ALICE));
}

#[test]
fn get_certificate_names_the_missing_identifier() {
    let store = store_with_course();
    assert_eq!(store.get_certificate(3), Err(not_found("a certificate with id=3 not found")));
}

#[test]
fn verify_certificate_compares_the_user() {
    let mut store = store_with_course();
    let made = store.issue_certificate(77, 0, ALICE, 500).unwrap();
    assert_eq!(store.verify_certificate(77, made.id), Ok(true));
    assert_eq!(store.verify_certificate(78, made.id), Ok(false));
    assert_eq!(store.verify_certificate(0, made.id), Ok(false));
}

#[test]
fn verify_certificate_of_an_unknown_certificate_is_not_found_whoever_the_user() {
    let mut store = store_with_course();
    store.issue_certificate(77, 0, ALICE, 500).unwrap();
    for user in [0, 77, u64::MAX] {
        assert_eq!(
            store.verify_certificate(user, 2),
            Err(not_found("certificate with id=2 not found"))
        );
    }
    assert_eq!(
        store.verify_certificate(77, 0),
        Err(not_found("certificate with id=0 not found"))
    );
}

#[test]
fn certificates_stay_when_their_course_is_deleted() {
    let mut store = store_with_course();
    let made = store.issue_certificate(77, 0, ALICE, 500).unwrap();
    store.delete_course(0, ALICE, 600).unwrap();
    assert_eq!(store.get_certificate(made.id), Ok(made));
    assert_eq!(store.verify_certificate(77, made.id), Ok(true));
}

#[test]
fn certificates_are_listed_by_ascending_identifier() {
    let mut store = store_with_course();
    for user in [9u64, 8, 7] {
        store.issue_certificate(user, 0, ALICE, 500).unwrap();
    }
    let all = store.certificates().iterate();
    assert_eq!(
        all,
        vec![
            (1, Certificate { id: 1, course_id: 0, user_id: 9, issue_date: 500 }),
            (2, Certificate { id: 2, course_id: 0, user_id: 8, issue_date: 500 }),
            (3, Certificate { id: 3, course_id: 0, user_id: 7, issue_date: 500 }),
        ]
    );
}
