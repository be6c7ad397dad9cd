//! Certificates.

use vstd::prelude::*;
use crate::codec::{lemma_read_u64, lemma_u64_bytes_len, put_u64, read_u64, take_u64, u64_bytes};
use crate::record::Record;

verus! {

/// A certificate: that a user was certified for a course, and when.
#[derive(Clone, Copy, Debug, PartialEq, Eq, Default)]
pub struct Certificate {
    pub id: u64,
    pub course_id: u64,
    pub user_id: u64,
    pub issue_date: u64,
}

impl View for Certificate {
    type V = Certificate;

    open spec fn view(&self) -> Certificate {
        *self
    }
}

/// The encoding of a certificate is 32 bytes long.
pub proof fn lemma_certificate_size(c: Certificate)
    ensures
        Certificate::encoding(c).len() == 32,
{
    lemma_u64_bytes_len(c.id);
    lemma_u64_bytes_len(c.course_id);
    lemma_u64_bytes_len(c.user_id);
    lemma_u64_bytes_len(c.issue_date);
}

impl Record for Certificate {
    open spec fn encoding(value: Certificate) -> Seq<u8> {
        u64_bytes(value.id) + u64_bytes(value.course_id) + u64_bytes(value.user_id) + u64_bytes(
            value.issue_date,
        )
    }

    open spec fn decoding(bytes: Seq<u8>) -> Option<Certificate> {
        match read_u64(bytes) {
            Some((id, after_id)) => match read_u64(after_id) {
                Some((course_id, after_course)) => match read_u64(after_course) {
                    Some((user_id, after_user)) => match read_u64(after_user) {
                        Some((issue_date, rest)) => if rest.len() == 0 {
                            Some(Certificate { id, course_id, user_id, issue_date })
                        } else {
                            None
                        },
                        None => None,
                    },
                    None => None,
                },
                None => None,
            },
            None => None,
        }
    }

    open spec fn id_of(value: Certificate) -> u64 {
        value.id
    }

    fn id(&self) -> (id: u64) {
        self.id
    }

    proof fn lemma_decoding_of_encoding(value: Certificate) {
        let t4 = Seq::<u8>::empty();
        let t3 = u64_bytes(value.issue_date) + t4;
        let t2 = u64_bytes(value.user_id) + t3;
        let t1 = u64_bytes(value.course_id) + t2;
        assert(Self::encoding(value) =~= u64_bytes(value.id) + t1);
        lemma_read_u64(value.id, t1);
        lemma_read_u64(value.course_id, t2);
        lemma_read_u64(value.user_id, t3);
        lemma_read_u64(value.issue_date, t4);
    }

    fn to_bytes(&self) -> (bytes: Vec<u8>) {
        let mut bytes: Vec<u8> = Vec::new();
        put_u64(&mut bytes, self.id);
        put_u64(&mut bytes, self.course_id);
        put_u64(&mut bytes, self.user_id);
        put_u64(&mut bytes, self.issue_date);
        proof {
            assert(bytes@ =~= Self::encoding(self@));
        }
        bytes
    }

    fn from_bytes(bytes: &[u8]) -> (value: Option<Self>) {
        proof {
            assert(bytes@.skip(0) =~= bytes@);
        }
        let (id, at) = match take_u64(bytes, 0) {
            Some(field) => field,
            None => return None,
        };
        let (course_id, at) = match take_u64(bytes, at) {
            Some(field) => field,
            None => return None,
        };
        let (user_id, at) = match take_u64(bytes, at) {
            Some(field) => field,
            None => return None,
        };
        let (issue_date, at) = match take_u64(bytes, at) {
            Some(field) => field,
            None => return None,
        };
        if at != bytes.len() {
            return None;
        }
        Some(Certificate { id, course_id, user_id, issue_date })
    }
}

} // verus!
