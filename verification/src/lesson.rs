//! Lessons.

use vstd::prelude::*;
use vstd::utf8::encode_utf8;
use crate::codec::{
    lemma_opt_bytes_len, lemma_read_opt, lemma_read_text, lemma_read_u64, lemma_u64_bytes_len,
    opt_bytes, put_opt, put_text, put_u64, read_opt, read_text, read_u64, take_opt, take_text,
    take_u64, text_bytes, u64_bytes,
};
use crate::record::{Record, MAX_RECORD_SIZE};

verus! {

/// A lesson of a course.
#[derive(Clone, Debug, PartialEq, Eq, Default)]
pub struct Lesson {
    pub id: u64,
    pub course_id: u64,
    pub title: String,
    pub content: String,
    pub created_at: u64,
    pub updated_at: Option<u64>,
}

/// What a caller supplies to create or update a lesson.
#[derive(Clone, Debug, PartialEq, Eq, Default)]
pub struct LessonPayload {
    pub title: String,
    pub content: String,
}

/// A [`Lesson`] as a mathematical value.
pub ghost struct LessonView {
    pub id: u64,
    pub course_id: u64,
    pub title: Seq<char>,
    pub content: Seq<char>,
    pub created_at: u64,
    pub updated_at: Option<u64>,
}

impl View for Lesson {
    type V = LessonView;

    open spec fn view(&self) -> LessonView {
        LessonView {
            id: self.id,
            course_id: self.course_id,
            title: self.title@,
            content: self.content@,
            created_at: self.created_at,
            updated_at: self.updated_at,
        }
    }
}

/// The number of bytes that a lesson takes: 49 for its fixed parts and the
/// UTF-8 bytes of its two texts.
pub open spec fn lesson_size(l: LessonView) -> nat {
    49 + encode_utf8(l.title).len() + encode_utf8(l.content).len()
}

/// The encoding of a lesson is as long as [`lesson_size`] says.
pub proof fn lemma_lesson_size(l: LessonView)
    ensures
        Lesson::encoding(l).len() == lesson_size(l),
{
    lemma_u64_bytes_len(l.id);
    lemma_u64_bytes_len(l.course_id);
    lemma_u64_bytes_len(encode_utf8(l.title).len() as u64);
    lemma_u64_bytes_len(encode_utf8(l.content).len() as u64);
    lemma_u64_bytes_len(l.created_at);
    lemma_opt_bytes_len(l.updated_at);
}

/// Tells whether a lesson with these texts is no larger than a table takes.
pub fn lesson_fits(title: &str, content: &str) -> (fits: bool)
    ensures
        fits == (49 + encode_utf8(title@).len() + encode_utf8(content@).len() <= MAX_RECORD_SIZE),
{
    let title_len: usize = title.as_bytes().len();
    let content_len: usize = content.as_bytes().len();
    let size: u128 = 49u128 + title_len as u128 + content_len as u128;
    size <= MAX_RECORD_SIZE as u128
}

impl Record for Lesson {
    open spec fn encoding(value: LessonView) -> Seq<u8> {
        u64_bytes(value.id) + u64_bytes(value.course_id) + text_bytes(value.title) + text_bytes(
            value.content,
        ) + u64_bytes(value.created_at) + opt_bytes(value.updated_at)
    }

    open spec fn decoding(bytes: Seq<u8>) -> Option<LessonView> {
        match read_u64(bytes) {
            Some((id, after_id)) => match read_u64(after_id) {
                Some((course_id, after_course)) => match read_text(after_course) {
                    Some((title, after_title)) => match read_text(after_title) {
                        Some((content, after_content)) => match read_u64(after_content) {
                            Some((created_at, after_created)) => match read_opt(after_created) {
                                Some((updated_at, rest)) => if rest.len() == 0 {
                                    Some(
                                        LessonView {
                                            id,
                                            course_id,
                                            title,
                                            content,
                                            created_at,
                                            updated_at,
                                        },
                                    )
                                } else {
                                    None
                                },
                                None => None,
                            },
                            None => None,
                        },
                        None => None,
                    },
                    None => None,
                },
                None => None,
            },
            None => None,
        }
    }

    open spec fn id_of(value: LessonView) -> u64 {
        value.id
    }

    fn id(&self) -> (id: u64) {
        self.id
    }

    proof fn lemma_decoding_of_encoding(value: LessonView) {
        lemma_lesson_size(value);
        let t6 = Seq::<u8>::empty();
        let t5 = opt_bytes(value.updated_at) + t6;
        let t4 = u64_bytes(value.created_at) + t5;
        let t3 = text_bytes(value.content) + t4;
        let t2 = text_bytes(value.title) + t3;
        let t1 = u64_bytes(value.course_id) + t2;
        assert(Self::encoding(value) =~= u64_bytes(value.id) + t1);
        lemma_read_u64(value.id, t1);
        lemma_read_u64(value.course_id, t2);
        lemma_read_text(value.title, t3);
        lemma_read_text(value.content, t4);
        lemma_read_u64(value.created_at, t5);
        lemma_read_opt(value.updated_at, t6);
    }

    fn to_bytes(&self) -> (bytes: Vec<u8>) {
        let mut bytes: Vec<u8> = Vec::new();
        put_u64(&mut bytes, self.id);
        put_u64(&mut bytes, self.course_id);
        put_text(&mut bytes, self.title.as_str());
        put_text(&mut bytes, self.content.as_str());
        put_u64(&mut bytes, self.created_at);
        put_opt(&mut bytes, self.updated_at);
        proof {
            assert(bytes@ =~= Self::encoding(self@));
        }
        bytes
    }

    fn from_bytes(bytes: &[u8]) -> (value: Option<Self>) {
        proof {
            assert(bytes@.skip(0) =~= bytes@);
        }
        let (id, at) = match take_u64(bytes, 0) {
            Some(field) => field,
            None => return None,
        };
        let (course_id, at) = match take_u64(bytes, at) {
            Some(field) => field,
            None => return None,
        };
        let (title, at) = match take_text(bytes, at) {
            Some(field) => field,
            None => return None,
        };
        let (content, at) = match take_text(bytes, at) {
            Some(field) => field,
            None => return None,
        };
        let (created_at, at) = match take_u64(bytes, at) {
            Some(field) => field,
            None => return None,
        };
        let (updated_at, at) = match take_opt(bytes, at) {
            Some(field) => field,
            None => return None,
        };
        if at != bytes.len() {
            return None;
        }
        Some(Lesson { id, course_id, title, content, created_at, updated_at })
    }
}

} // verus!
