use course_registry::course::CoursePayload;
use course_registry::error::Error;
use course_registry::lesson::LessonPayload;
use course_registry::store::Store;

const CREATOR: &str = "2vxsx-fae";
const OTHER: &str = "rrkah-fqaaa-aaaaa-aaaaq-cai";

fn course(title: &str) -> CoursePayload {
    CoursePayload { title: title.to_string(), description: "description".to_string() }
}

fn lesson(title: &str) -> LessonPayload {
    LessonPayload { title: title.to_string(), content: "content".to_string() }
}

/// Whether the store is in order: every record stands under its own
/// identifier below the next one, identifiers are unique over all kinds,
/// lists hold lessons of their course and none twice, and every lesson has
/// a course that lists it.
fn check(store: &Store) {
    let next = store.next_id();
    let courses = store.courses().iterate();
    let lessons = store.lessons().iterate();
    let certificates = store.certificates().iterate();
    let users = store.users().iterate();
    let mut seen = Vec::new();
    for (id, c) in &courses {
        assert_eq!(c.id, *id);
        seen.push(*id);
    }
    for (id, l) in &lessons {
        assert_eq!(l.id, *id);
        seen.push(*id);
    }
    for (id, c) in &certificates {
        assert_eq!(c.id, *id);
        seen.push(*id);
    }
    for (id, u) in &users {
        assert_eq!(u.id, *id);
        seen.push(*id);
    }
    let count = seen.len();
    seen.sort();
    seen.dedup();
    assert_eq!(seen.len(), count);
    assert!(seen.iter().all(|id| *id < next));
    for (id, c) in &courses {
        let mut listed = c.lessons.clone();
        listed.sort();
        listed.dedup();
        assert_eq!(listed.len(), c.lessons.len());
        for lesson in &c.lessons {
            assert_eq!(store.get_lesson(*lesson).unwrap().course_id, *id);
        }
    }
    for (id, l) in &lessons {
        assert!(store.get_course(l.course_id).unwrap().lessons.contains(id));
    }
}

#[test]
fn course_with_two_lessons_is_deleted_with_them() {
    let mut store = Store::new();
    let made = store.add_course(course("Algebra I"), CREATOR, 1).unwrap();
    assert_eq!(made.title, "Algebra I");
    store.add_lesson(lesson("Lesson 1"), made.id, CREATOR, 2).unwrap();
    store.add_lesson(lesson("Lesson 2"), made.id, CREATOR, 3).unwrap();
    let listed = store.get_course(made.id).unwrap().lessons;
    assert_eq!(listed.len(), 2);
    assert_eq!(store.get_lesson(listed[0]).unwrap().title, "Lesson 1");
    assert_eq!(store.get_lesson(listed[1]).unwrap().title, "Lesson 2");
    assert!(listed[0] < listed[1]);
    assert_eq!(store.delete_course(made.id, CREATOR, 4), Ok(()));
    assert!(matches!(store.get_lesson(listed[0]), Err(Error::NotFound { .. })));
    assert!(matches!(store.get_lesson(listed[1]), Err(Error::NotFound { .. })));
    assert!(matches!(store.get_course(made.id), Err(Error::NotFound { .. })));
    check(&store);
}

#[test]
fn certificate_is_verified_for_its_user_only() {
    let mut store = Store::new();
    let made = store.add_course(course("C"), CREATOR, 1).unwrap();
    let alice = store.register_user("alice".to_string(), "key".to_string()).unwrap();
    let cert = store.issue_certificate(alice.id, made.id, CREATOR, 2).unwrap();
    assert_eq!(store.verify_certificate(alice.id, cert.id), Ok(true));
    assert_eq!(store.verify_certificate(alice.id + 1000, cert.id), Ok(false));
}

#[test]
fn identifiers_rise_over_all_kinds() {
    let mut store = Store::new();
    let mut ids = Vec::new();
    ids.push(store.add_course(course("C"), CREATOR, 1).unwrap().id);
    ids.push(store.register_user("alice".to_string(), "key".to_string()).unwrap().id);
    store.add_lesson(lesson("L"), ids[0], CREATOR, 2).unwrap();
    ids.push(*store.get_course(ids[0]).unwrap().lessons.last().unwrap());
    ids.push(store.issue_certificate(ids[1], ids[0], CREATOR, 3).unwrap().id);
    assert!(store.add_lesson(lesson("L"), 77, CREATOR, 2).is_err());
    assert!(store.issue_certificate(0, ids[0], OTHER, 3).is_err());
    store.delete_user(ids[1]).unwrap();
    ids.push(store.add_course(course("D"), OTHER, 4).unwrap().id);
    ids.push(store.register_user("bob".to_string(), "key".to_string()).unwrap().id);
    assert_eq!(ids, vec![0, 1, 2, 3, 4, 5]);
    assert_eq!(store.next_id(), 6);
    check(&store);
}

#[test]
fn a_caller_who_is_not_the_creator_changes_nothing() {
    let mut store = Store::new();
    let made = store.add_course(course("C"), CREATOR, 1).unwrap();
    store.add_lesson(lesson("L"), made.id, CREATOR, 2).unwrap();
    let course_before = store.get_course(made.id).unwrap();
    let lesson_id = course_before.lessons[0];
    let lesson_before = store.get_lesson(lesson_id).unwrap();
    let next = store.next_id();
    assert_eq!(store.update_course(made.id, course("X"), OTHER, 9), Err(Error::NotCreator));
    assert_eq!(store.delete_course(made.id, OTHER, 9), Err(Error::NotCreator));
    assert_eq!(store.add_lesson(lesson("X"), made.id, OTHER, 9), Err(Error::NotCreator));
    assert_eq!(store.update_lesson(lesson_id, lesson("X"), OTHER, 9), Err(Error::NotCreator));
    assert_eq!(store.delete_lesson(lesson_id, OTHER, 9), Err(Error::NotCreator));
    assert_eq!(store.issue_certificate(0, made.id, OTHER, 9), Err(Error::NotCreator));
    assert_eq!(store.get_course(made.id), Ok(course_before));
    assert_eq!(store.get_lesson(lesson_id), Ok(lesson_before));
    assert_eq!(store.next_id(), next);
    assert!(store.certificates().iterate().is_empty());
}

#[test]
fn the_store_stays_in_order_under_many_operations() {
    let callers = [CREATOR, OTHER, "aaaaa-aa"];
    let mut store = Store::new();
    let mut seed: u64 = 0x2545f4914f6cdd1d;
    let mut last_created: Option<u64> = None;
    for round in 0..600u64 {
        seed ^= seed << 13;
        seed ^= seed >> 7;
        seed ^= seed << 17;
        let caller = callers[(seed >> 8) as usize % callers.len()];
        let target = (seed >> 16) % (store.next_id() + 2);
        let next = store.next_id();
        let created = match (seed >> 40) % 9 {
            0 => store.add_course(course("c"), caller, round).is_some(),
            1 => store.add_lesson(lesson("l"), target, caller, round).is_ok(),
            2 => store.issue_certificate(target, (seed >> 24) % (next + 1), caller, round).is_ok(),
            3 => store.register_user("u".to_string(), "k".to_string()).is_ok(),
            4 => {
                let _ = store.update_course(target, course("c2"), caller, round);
                false
            }
            5 => {
                let _ = store.update_lesson(target, lesson("l2"), caller, round);
                false
            }
            6 => {
                let _ = store.delete_lesson(target, caller, round);
                false
            }
            7 => {
                let _ = store.delete_course(target, caller, round);
                false
            }
            _ => {
                let _ = store.delete_user(target);
                false
            }
        };
        if created {
            assert_eq!(store.next_id(), next + 1);
            if let Some(earlier) = last_created {
                assert!(earlier < next);
            }
            last_created = Some(next);
        } else {
            assert_eq!(store.next_id(), next);
        }
        if round % 50 == 0 {
            check(&store);
        }
    }
    check(&store);
    assert!(store.next_id() > 50);
}
