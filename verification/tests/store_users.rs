use course_registry::course::CoursePayload;
use course_registry::error::Error;
use course_registry::store::Store;
use course_registry::user::User;

const ALICE: &str = "2vxsx-fae";

fn not_found(msg: &str) -> Error {
    Error::NotFound { msg: msg.to_string() }
}

#[test]
fn register_user_returns_and_stores_the_user() {
    let mut store = Store::new();
    let made = store.register_user("alice".to_string(), "pk-a".to_string()).unwrap();
    let expected = User { id: 0, username: "alice".to_string(), public_key: "pk-a".to_string() };
    assert_eq!(made, expected);
    assert_eq!(store.get_user(0), Ok(expected.clone()));
    assert_eq!(store._get_user(&0), Some(expected));
    assert_eq!(store.next_id(), 1);
}

#[test]
fn register_user_does_not_ask_for_a_new_name_or_key() {
    let mut store = Store::new();
    let a = store.register_user("alice".to_string(), "pk".to_string()).unwrap();
    let b = store.register_user("alice".to_string(), "pk".to_string()).unwrap();
    assert_eq!((a.id, b.id), (0, 1));
    assert_eq!(store.get_user(1).unwrap().username, "alice");
}

#[test]
fn register_user_takes_long_texts() {
    let mut store = Store::new();
    assert!(store.register_user_ready(&"a".repeat(600), &"k".repeat(40_000)));
    let made = store.register_user("a".repeat(600), "k".repeat(40_000)).unwrap();
    assert_eq!(made.id, 0);
    assert_eq!(store.get_user(0), Ok(made));
    assert_eq!(store.next_id(), 1);
}

#[test]
fn get_user_names_the_missing_identifier() {
    let store = Store::new();
    assert_eq!(store.get_user(4), Err(not_found("a user with id=4 not found")));
}

#[test]
fn delete_user_removes_the_user() {
    let mut store = Store::new();
    store.register_user("alice".to_string(), "pk-a".to_string()).unwrap();
    store.register_user("bob".to_string(), "pk-b".to_string()).unwrap();
    assert_eq!(store.delete_user(0), Ok(()));
    assert_eq!(store.get_user(0), Err(not_found("a user with id=0 not found")));
    assert_eq!(store.get_user(1).unwrap().username, "bob");
    assert_eq!(store.next_id(), 2);
}

#[test]
fn delete_user_of_a_missing_user_is_not_found() {
    let mut store = Store::new();
    assert_eq!(store.delete_user(0), Err(not_found("user with id=0 not found")));
    store.register_user("alice".to_string(), "pk-a".to_string()).unwrap();
    store.delete_user(0).unwrap();
    assert_eq!(store.delete_user(0), Err(not_found("user with id=0 not found")));
}

#[test]
fn delete_user_leaves_the_certificates_of_the_user() {
    let mut store = Store::new();
    let user = store.register_user("alice".to_string(), "pk-a".to_string()).unwrap();
    let course = CoursePayload { title: "Algebra I".to_string(), description: String::new() };
    let course = store.add_course(course, ALICE, 10).unwrap();
    let made = store.issue_certificate(user.id, course.id, ALICE, 20).unwrap();
    store.delete_user(user.id).unwrap();
    assert_eq!(store.get_certificate(made.id), Ok(made));
    assert_eq!(store.verify_certificate(user.id, made.id), Ok(true));
}

#[test]
fn users_are_listed_by_ascending_identifier() {
    let mut store = Store::new();
    for name in ["c", "a", "b"] {
        store.register_user(name.to_string(), String::new()).unwrap();
    }
    let names: Vec<(u64, String)> =
        store.users().iterate().into_iter().map(|entry| (entry.0, entry.1.username)).collect();
    assert_eq!(
        names,
        vec![(0, "c".to_string()), (1, "a".to_string()), (2, "b".to_string())]
    );
}
