use course_registry::certificate::Certificate;
use course_registry::course::{course_fits, Course};
use course_registry::lesson::{lesson_fits, Lesson};
use course_registry::record::{is_storable, Record, MAX_RECORD_SIZE};
use course_registry::user::{user_fits, User};

fn course() -> Course {
    Course {
        id: 3,
        creator_principal: "2vxsx-fae".to_string(),
        title: "Algebra I".to_string(),
        description: "Groups, rings, fields".to_string(),
        lessons: vec![4, 9],
        created_at: 1_700_000_000,
        updated_at: Some(1_700_000_500),
    }
}

fn lesson() -> Lesson {
    Lesson {
        id: 4,
        course_id: 3,
        title: "Lesson 1".to_string(),
        content: "∀x".to_string(),
        created_at: 11,
        updated_at: None,
    }
}

#[test]
fn certificate_bytes_are_four_integers() {
    let c = Certificate { id: 1, course_id: 2, user_id: 3, issue_date: 4 };
    let mut expected = Vec::new();
    for x in [1u8, 2, 3, 4] {
        expected.push(x);
        expected.extend_from_slice(&[0; 7]);
    }
    assert_eq!(c.to_bytes(), expected);
}

#[test]
fn user_bytes_are_identifier_and_two_texts() {
    let u = User { id: 7, username: "al".to_string(), public_key: "k".to_string() };
    assert_eq!(
        u.to_bytes(),
        vec![
            7, 0, 0, 0, 0, 0, 0, 0, 2, 0, 0, 0, 0, 0, 0, 0, b'a', b'l', 1, 0, 0, 0, 0, 0, 0, 0,
            b'k'
        ]
    );
}

#[test]
fn course_takes_57_bytes_and_its_texts_and_eight_for_each_lesson() {
    let c = course();
    assert_eq!(
        c.to_bytes().len(),
        57 + "2vxsx-fae".len() + "Algebra I".len() + "Groups, rings, fields".len() + 8 * 2
    );
    let empty = Course::default();
    assert_eq!(empty.to_bytes().len(), 57);
}

#[test]
fn lesson_takes_49_bytes_and_its_texts() {
    assert_eq!(lesson().to_bytes().len(), 49 + "Lesson 1".len() + "∀x".len());
    assert_eq!("∀x".len(), 4);
    assert_eq!(Lesson::default().to_bytes().len(), 49);
}

#[test]
fn user_takes_24_bytes_and_its_texts() {
    assert_eq!(User::default().to_bytes().len(), 24);
}

#[test]
fn certificate_takes_32_bytes() {
    assert_eq!(Certificate::default().to_bytes().len(), 32);
}

#[test]
fn course_reads_back() {
    let c = course();
    assert_eq!(Course::from_bytes(&c.to_bytes()), Some(c));
    let fresh = Course { lessons: Vec::new(), updated_at: None, ..course() };
    assert_eq!(Course::from_bytes(&fresh.to_bytes()), Some(fresh));
}

#[test]
fn lesson_reads_back() {
    let l = lesson();
    assert_eq!(Lesson::from_bytes(&l.to_bytes()), Some(l));
}

#[test]
fn certificate_reads_back() {
    let c = Certificate { id: u64::MAX, course_id: 0, user_id: 12, issue_date: 99 };
    assert_eq!(Certificate::from_bytes(&c.to_bytes()), Some(c));
}

#[test]
fn user_reads_back() {
    let u = User { id: 1, username: "alice".to_string(), public_key: "ed25519:öä".to_string() };
    assert_eq!(User::from_bytes(&u.to_bytes()), Some(u));
}

#[test]
fn bytes_after_a_record_are_refused() {
    let mut bytes = course().to_bytes();
    bytes.push(0);
    assert_eq!(Course::from_bytes(&bytes), None);
    let mut bytes = lesson().to_bytes();
    bytes.push(0);
    assert_eq!(Lesson::from_bytes(&bytes), None);
    let mut bytes = Certificate::default().to_bytes();
    bytes.push(0);
    assert_eq!(Certificate::from_bytes(&bytes), None);
    let mut bytes = User::default().to_bytes();
    bytes.push(0);
    assert_eq!(User::from_bytes(&bytes), None);
}

#[test]
fn a_record_cut_short_is_refused() {
    let full = course().to_bytes();
    for n in 0..full.len() {
        assert_eq!(Course::from_bytes(&full[..n]), None);
    }
    let full = lesson().to_bytes();
    for n in 0..full.len() {
        assert_eq!(Lesson::from_bytes(&full[..n]), None);
    }
    let full = Certificate::default().to_bytes();
    for n in 0..full.len() {
        assert_eq!(Certificate::from_bytes(&full[..n]), None);
    }
    let full = User { id: 3, username: "bob".to_string(), public_key: "pk".to_string() }.to_bytes();
    for n in 0..full.len() {
        assert_eq!(User::from_bytes(&full[..n]), None);
    }
}

#[test]
fn one_kind_of_record_is_not_read_as_another() {
    assert_eq!(Course::from_bytes(&Certificate::default().to_bytes()), None);
    assert_eq!(Certificate::from_bytes(&lesson().to_bytes()), None);
}

#[test]
fn a_table_takes_records_of_up_to_u32_max_bytes() {
    assert_eq!(MAX_RECORD_SIZE, u32::MAX as usize);
    let long = User { id: 0, username: "x".repeat(100_000), public_key: String::new() };
    assert_eq!(long.to_bytes().len(), 100_024);
    assert!(is_storable(&long));
    assert!(is_storable(&Certificate::default()));
    assert_eq!(User::from_bytes(&long.to_bytes()), Some(long));
}

#[test]
fn sizes_are_told_without_writing_the_record() {
    assert!(course_fits("2vxsx-fae", "Algebra I", "", 0));
    assert!(course_fits("", "", "", 536_870_904));
    assert!(!course_fits("", "", "", 536_870_905));
    assert!(!course_fits("a", "", "", 536_870_904 + 1));
    assert!(!course_fits("", "", "", usize::MAX));
    assert!(lesson_fits("Lesson 1", &"c".repeat(10_000)));
    assert!(user_fits("alice", "key"));
}
