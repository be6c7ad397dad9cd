use course_registry::course::CoursePayload;
use course_registry::error::Error;
use course_registry::lesson::{Lesson, LessonPayload};
use course_registry::store::Store;

const ALICE: &str = "2vxsx-fae";
const BOB: &str = "rrkah-fqaaa-aaaaa-aaaaq-cai";

fn course(title: &str) -> CoursePayload {
    CoursePayload { title: title.to_string(), description: String::new() }
}

fn payload(title: &str, content: &str) -> LessonPayload {
    LessonPayload { title: title.to_string(), content: content.to_string() }
}

fn not_found(msg: &str) -> Error {
    Error::NotFound { msg: msg.to_string() }
}

fn store_with_course() -> Store {
    let mut store = Store::new();
    store.add_course(course("Algebra I"), ALICE, 10).unwrap();
    store
}

#[test]
fn add_lesson_stores_the_lesson_and_lists_it_in_its_course() {
    let mut store = store_with_course();
    assert_eq!(store.add_lesson(payload("Lesson 1", "Sets"), 0, ALICE, 20), Ok(()));
    assert_eq!(
        store.get_lesson(1),
        Ok(Lesson {
            id: 1,
            course_id: 0,
            title: "Lesson 1".to_string(),
            content: "Sets".to_string(),
            created_at: 20,
            updated_at: None,
        })
    );
    let parent = store.get_course(0).unwrap();
    assert_eq!(parent.lessons, vec![1]);
    assert_eq!(parent.updated_at, Some(20));
    assert_eq!(parent.created_at, 10);
    assert_eq!(parent.title, "Algebra I");
    assert_eq!(store.next_id(), 2);
}

#[test]
fn add_lesson_appends_in_order_of_creation() {
    let mut store = store_with_course();
    for n in 0..5u64 {
        store.add_lesson(payload(&format!("Lesson {}", n), ""), 0, ALICE, 20 + n).unwrap();
    }
    let parent = store.get_course(0).unwrap();
    assert_eq!(parent.lessons, vec![1, 2, 3, 4, 5]);
    assert_eq!(parent.updated_at, Some(24));
    assert_eq!(parent.lessons.iter().filter(|id| **id == 5).count(), 1);
}

#[test]
fn add_lesson_to_a_missing_course_is_not_found() {
    let mut store = store_with_course();
    assert_eq!(
        store.add_lesson(payload("Lesson 1", ""), 9, ALICE, 20),
        Err(not_found("course with id=9 not found"))
    );
    assert_eq!(store.next_id(), 1);
}

#[test]
fn add_lesson_by_another_caller_is_refused_and_changes_nothing() {
    let mut store = store_with_course();
    let before = store.get_course(0).unwrap();
    assert_eq!(store.add_lesson(payload("Lesson 1", ""), 0, BOB, 20), Err(Error::NotCreator));
    assert_eq!(store.get_course(0), Ok(before));
    assert_eq!(store._get_lesson(&1), None);
    assert_eq!(store.next_id(), 1);
}

#[test]
fn add_lesson_takes_long_texts() {
    let mut store = store_with_course();
    let long = payload("Lesson 1", &"c".repeat(300_000));
    assert!(store.add_lesson_ready(&long, 0, ALICE, 20));
    assert_eq!(store.add_lesson(long, 0, ALICE, 20), Ok(()));
    assert_eq!(store.get_lesson(1).unwrap().content.len(), 300_000);
    assert_eq!(store.get_course(0).unwrap().lessons, vec![1]);
}

#[test]
fn add_lesson_takes_many_lessons() {
    let mut store = store_with_course();
    for n in 0..400u64 {
        assert_eq!(store.add_lesson(payload("l", ""), 0, ALICE, n), Ok(()));
    }
    let expected: Vec<u64> = (1..=400).collect();
    assert_eq!(store.get_course(0).unwrap().lessons, expected);
    assert_eq!(store.get_lesson(400).unwrap().course_id, 0);
    assert_eq!(store.next_id(), 401);
}

#[test]
fn add_lesson_is_ready_where_it_will_be_refused() {
    let store = store_with_course();
    assert!(store.add_lesson_ready(&payload("x", "y"), 0, BOB, 20));
    assert!(store.add_lesson_ready(&payload("x", "y"), 9, ALICE, 20));
    assert!(store.add_lesson_ready(&payload("x", "y"), 0, ALICE, 20));
}

#[test]
fn get_lesson_names_the_missing_identifier() {
    let store = store_with_course();
    assert_eq!(store.get_lesson(0), Err(not_found("a lesson with id=0 not found")));
    assert_eq!(store.get_lesson(300), Err(not_found("a lesson with id=300 not found")));
}

#[test]
fn update_lesson_changes_title_content_and_time_of_update() {
    let mut store = store_with_course();
    store.add_lesson(payload("Lesson 1", "Sets"), 0, ALICE, 20).unwrap();
    let parent = store.get_course(0).unwrap();
    let updated = store.update_lesson(1, payload("Lesson 1b", "Maps"), ALICE, 30).unwrap();
    let expected = Lesson {
        id: 1,
        course_id: 0,
        title: "Lesson 1b".to_string(),
        content: "Maps".to_string(),
        created_at: 20,
        updated_at: Some(30),
    };
    assert_eq!(updated, expected);
    assert_eq!(store.get_lesson(1), Ok(expected));
    assert_eq!(store.get_course(0), Ok(parent));
}

#[test]
fn update_lesson_of_a_missing_lesson_is_not_found() {
    let mut store = store_with_course();
    assert_eq!(
        store.update_lesson(0, payload("x", "y"), ALICE, 30),
        Err(not_found("lesson with id=0 not found"))
    );
}

#[test]
fn update_lesson_by_another_caller_is_refused_and_changes_nothing() {
    let mut store = store_with_course();
    store.add_lesson(payload("Lesson 1", "Sets"), 0, ALICE, 20).unwrap();
    let before = store.get_lesson(1).unwrap();
    assert_eq!(store.update_lesson(1, payload("x", "y"), BOB, 30), Err(Error::NotCreator));
    assert_eq!(store.get_lesson(1), Ok(before));
}

#[test]
fn update_lesson_takes_long_texts() {
    let mut store = store_with_course();
    store.add_lesson(payload("Lesson 1", "Sets"), 0, ALICE, 20).unwrap();
    let long = payload(&"x".repeat(2_000), &"y".repeat(90_000));
    assert!(store.update_lesson_ready(1, &long, ALICE, 30));
    let updated = store.update_lesson(1, long, ALICE, 30).unwrap();
    assert_eq!(updated.title.len(), 2_000);
    assert_eq!(store.get_lesson(1), Ok(updated));
}

#[test]
fn update_lesson_is_ready_where_it_will_be_refused() {
    let mut store = store_with_course();
    store.add_lesson(payload("Lesson 1", "Sets"), 0, ALICE, 20).unwrap();
    assert!(store.update_lesson_ready(1, &payload("x", "y"), BOB, 30));
    assert!(store.update_lesson_ready(7, &payload("x", "y"), ALICE, 30));
}

#[test]
fn delete_lesson_removes_the_lesson_and_takes_it_off_the_list() {
    let mut store = store_with_course();
    store.add_lesson(payload("Lesson 1", ""), 0, ALICE, 20).unwrap();
    store.add_lesson(payload("Lesson 2", ""), 0, ALICE, 21).unwrap();
    store.add_lesson(payload("Lesson 3", ""), 0, ALICE, 22).unwrap();
    assert_eq!(store.delete_lesson(2, ALICE, 40), Ok(()));
    assert_eq!(store.get_lesson(2), Err(not_found("a lesson with id=2 not found")));
    let parent = store.get_course(0).unwrap();
    assert_eq!(parent.lessons, vec![1, 3]);
    assert_eq!(parent.updated_at, Some(40));
    assert!(store.get_lesson(1).is_ok());
    assert!(store.get_lesson(3).is_ok());
    assert_eq!(store.delete_lesson(2, ALICE, 41), Err(not_found("lesson with id=2 not found")));
}

#[test]
fn delete_lesson_by_another_caller_is_refused_and_changes_nothing() {
    let mut store = store_with_course();
    store.add_lesson(payload("Lesson 1", ""), 0, ALICE, 20).unwrap();
    let parent = store.get_course(0).unwrap();
    assert_eq!(store.delete_lesson(1, BOB, 40), Err(Error::NotCreator));
    assert!(store.get_lesson(1).is_ok());
    assert_eq!(store.get_course(0), Ok(parent));
}

#[test]
fn delete_lesson_works_on_a_course_with_a_long_record() {
    let mut store = Store::new();
    store.add_course(course(&"t".repeat(50_000)), ALICE, 10).unwrap();
    store.add_lesson(payload("first", ""), 0, ALICE, 20).unwrap();
    assert_eq!(store.delete_lesson(1, ALICE, 30), Ok(()));
    assert_eq!(store.get_course(0).unwrap().lessons, Vec::<u64>::new());
    assert_eq!(store.get_course(0).unwrap().title.len(), 50_000);
    assert_eq!(store.add_lesson(payload("second", ""), 0, ALICE, 40), Ok(()));
    assert_eq!(store.get_course(0).unwrap().lessons, vec![2]);
}

#[test]
fn lessons_are_listed_by_ascending_identifier() {
    let mut store = store_with_course();
    for n in 0..12u64 {
        store.add_lesson(payload(&format!("Lesson {}", n), ""), 0, ALICE, n).unwrap();
    }
    store.delete_lesson(4, ALICE, 50).unwrap();
    let ids: Vec<u64> = store.lessons().iterate().iter().map(|entry| entry.0).collect();
    assert_eq!(ids, vec![1, 2, 3, 5, 6, 7, 8, 9, 10, 11, 12]);
}
