//! Courses.

use vstd::prelude::*;
use vstd::utf8::encode_utf8;
use crate::codec::{
    ids_bytes, lemma_opt_bytes_len, lemma_packed_ids, lemma_read_ids, lemma_read_opt,
    lemma_read_text, lemma_read_u64, lemma_u64_bytes_len, opt_bytes, put_ids, put_opt, put_text,
    put_u64, read_ids, read_opt, read_text, read_u64, take_ids, take_opt, take_text, take_u64,
    text_bytes, u64_bytes,
};
use crate::record::{Record, MAX_RECORD_SIZE};

verus! {

/// A course: who created it, what it is called, and which lessons belong to
/// it.
#[derive(Clone, Debug, PartialEq, Eq, Default)]
pub struct Course {
    pub id: u64,
    pub creator_principal: String,
    pub title: String,
    pub description: String,
    pub lessons: Vec<u64>,
    pub created_at: u64,
    pub updated_at: Option<u64>,
}

/// What a caller supplies to create or update a course.
#[derive(Clone, Debug, PartialEq, Eq, Default)]
pub struct CoursePayload {
    pub title: String,
    pub description: String,
}

/// A [`Course`] as a mathematical value.
pub ghost struct CourseView {
    pub id: u64,
    pub creator_principal: Seq<char>,
    pub title: Seq<char>,
    pub description: Seq<char>,
    pub lessons: Seq<u64>,
    pub created_at: u64,
    pub updated_at: Option<u64>,
}

impl View for Course {
    type V = CourseView;

    open spec fn view(&self) -> CourseView {
        CourseView {
            id: self.id,
            creator_principal: self.creator_principal@,
            title: self.title@,
            description: self.description@,
            lessons: self.lessons@,
            created_at: self.created_at,
            updated_at: self.updated_at,
        }
    }
}

/// The number of bytes that a course takes: 57 for its fixed parts, the
/// UTF-8 bytes of its three texts, and eight for each lesson.
pub open spec fn course_size(c: CourseView) -> nat {
    57 + encode_utf8(c.creator_principal).len() + encode_utf8(c.title).len() + encode_utf8(
        c.description,
    ).len() + 8 * c.lessons.len()
}

/// The encoding of a course is as long as [`course_size`] says.
pub proof fn lemma_course_size(c: CourseView)
    ensures
        Course::encoding(c).len() == course_size(c),
{
    lemma_u64_bytes_len(c.id);
    lemma_u64_bytes_len(encode_utf8(c.creator_principal).len() as u64);
    lemma_u64_bytes_len(encode_utf8(c.title).len() as u64);
    lemma_u64_bytes_len(encode_utf8(c.description).len() as u64);
    lemma_u64_bytes_len(c.lessons.len() as u64);
    lemma_packed_ids(c.lessons);
    lemma_u64_bytes_len(c.created_at);
    lemma_opt_bytes_len(c.updated_at);
}

/// Tells whether a course with these texts and this many lessons is no
/// larger than a table takes.
pub fn course_fits(creator: &str, title: &str, description: &str, lessons: usize) -> (fits: bool)
    ensures
        fits == (57 + encode_utf8(creator@).len() + encode_utf8(title@).len() + encode_utf8(
            description@,
        ).len() + 8 * lessons <= MAX_RECORD_SIZE),
{
    let creator_len: usize = creator.as_bytes().len();
    let title_len: usize = title.as_bytes().len();
    let description_len: usize = description.as_bytes().len();
    let size: u128 = 57u128 + creator_len as u128 + title_len as u128 + description_len as u128
        + 8u128 * (lessons as u128);
    size <= MAX_RECORD_SIZE as u128
}

impl Record for Course {
    open spec fn encoding(value: CourseView) -> Seq<u8> {
        u64_bytes(value.id) + text_bytes(value.creator_principal) + text_bytes(value.title)
            + text_bytes(value.description) + ids_bytes(value.lessons) + u64_bytes(
            value.created_at,
        ) + opt_bytes(value.updated_at)
    }

    open spec fn decoding(bytes: Seq<u8>) -> Option<CourseView> {
        match read_u64(bytes) {
            Some((id, after_id)) => match read_text(after_id) {
                Some((creator_principal, after_creator)) => match read_text(after_creator) {
                    Some((title, after_title)) => match read_text(after_title) {
                        Some((description, after_description)) => match read_ids(
                            after_description,
                        ) {
                            Some((lessons, after_lessons)) => match read_u64(after_lessons) {
                                Some((created_at, after_created)) => match read_opt(
                                    after_created,
                                ) {
                                    Some((updated_at, rest)) => if rest.len() == 0 {
                                        Some(
                                            CourseView {
                                                id,
                                                creator_principal,
                                                title,
                                                description,
                                                lessons,
                                                created_at,
                                                updated_at,
                                            },
                                        )
                                    } else {
                                        None
                                    },
                                    None => None,
                                },
                                None => None,
                            },
                            None => None,
                        },
                        None => None,
                    },
                    None => None,
                },
                None => None,
            },
            None => None,
        }
    }

    open spec fn id_of(value: CourseView) -> u64 {
        value.id
    }

    fn id(&self) -> (id: u64) {
        self.id
    }

    proof fn lemma_decoding_of_encoding(value: CourseView) {
        lemma_course_size(value);
        let t7 = Seq::<u8>::empty();
        let t6 = opt_bytes(value.updated_at) + t7;
        let t5 = u64_bytes(value.created_at) + t6;
        let t4 = ids_bytes(value.lessons) + t5;
        let t3 = text_bytes(value.description) + t4;
        let t2 = text_bytes(value.title) + t3;
        let t1 = text_bytes(value.creator_principal) + t2;
        assert(Self::encoding(value) =~= u64_bytes(value.id) + t1);
        lemma_read_u64(value.id, t1);
        lemma_read_text(value.creator_principal, t2);
        lemma_read_text(value.title, t3);
        lemma_read_text(value.description, t4);
        lemma_read_ids(value.lessons, t5);
        lemma_read_u64(value.created_at, t6);
        lemma_read_opt(value.updated_at, t7);
    }

    fn to_bytes(&self) -> (bytes: Vec<u8>) {
        let mut bytes: Vec<u8> = Vec::new();
        put_u64(&mut bytes, self.id);
        put_text(&mut bytes, self.creator_principal.as_str());
        put_text(&mut bytes, self.title.as_str());
        put_text(&mut bytes, self.description.as_str());
        put_ids(&mut bytes, &self.lessons);
        put_u64(&mut bytes, self.created_at);
        put_opt(&mut bytes, self.updated_at);
        proof {
            assert(bytes@ =~= Self::encoding(self@));
        }
        bytes
    }

    fn from_bytes(bytes: &[u8]) -> (value: Option<Self>) {
        proof {
            assert(bytes@.skip(0) =~= bytes@);
        }
        let (id, at) = match take_u64(bytes, 0) {
            Some(field) => field,
            None => return None,
        };
        let (creator_principal, at) = match take_text(bytes, at) {
            Some(field) => field,
            None => return None,
        };
        let (title, at) = match take_text(bytes, at) {
            Some(field) => field,
            None => return None,
        };
        let (description, at) = match take_text(bytes, at) {
            Some(field) => field,
            None => return None,
        };
        let (lessons, at) = match take_ids(bytes, at) {
            Some(field) => field,
            None => return None,
        };
        let (created_at, at) = match take_u64(bytes, at) {
            Some(field) => field,
            None => return None,
        };
        let (updated_at, at) = match take_opt(bytes, at) {
            Some(field) => field,
            None => return None,
        };
        if at != bytes.len() {
            return None;
        }
        Some(Course { id, creator_principal, title, description, lessons, created_at, updated_at })
    }
}

} // verus!
