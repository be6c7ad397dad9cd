//! Users.

use vstd::prelude::*;
use vstd::utf8::encode_utf8;
use crate::codec::{
    lemma_read_text, lemma_read_u64, lemma_u64_bytes_len, put_text, put_u64, read_text, read_u64,
    take_text, take_u64, text_bytes, u64_bytes,
};
use crate::record::{Record, MAX_RECORD_SIZE};

verus! {

/// A registered user.
#[derive(Clone, Debug, PartialEq, Eq, Default)]
pub struct User {
    pub id: u64,
    pub username: String,
    pub public_key: String,
}

/// A [`User`] as a mathematical value.
pub ghost struct UserView {
    pub id: u64,
    pub username: Seq<char>,
    pub public_key: Seq<char>,
}

impl View for User {
    type V = UserView;

    open spec fn view(&self) -> UserView {
        UserView { id: self.id, username: self.username@, public_key: self.public_key@ }
    }
}

/// The number of bytes that a user takes: 24 for its fixed parts and the
/// UTF-8 bytes of its two texts.
pub open spec fn user_size(u: UserView) -> nat {
    24 + encode_utf8(u.username).len() + encode_utf8(u.public_key).len()
}

/// The encoding of a user is as long as [`user_size`] says.
pub proof fn lemma_user_size(u: UserView)
    ensures
        User::encoding(u).len() == user_size(u),
{
    lemma_u64_bytes_len(u.id);
    lemma_u64_bytes_len(encode_utf8(u.username).len() as u64);
    lemma_u64_bytes_len(encode_utf8(u.public_key).len() as u64);
}

/// Tells whether a user with these texts is no larger than a table takes.
pub fn user_fits(username: &str, public_key: &str) -> (fits: bool)
    ensures
        fits == (24 + encode_utf8(username@).len() + encode_utf8(public_key@).len()
            <= MAX_RECORD_SIZE),
{
    let username_len: usize = username.as_bytes().len();
    let key_len: usize = public_key.as_bytes().len();
    let size: u128 = 24u128 + username_len as u128 + key_len as u128;
    size <= MAX_RECORD_SIZE as u128
}

impl Record for User {
    open spec fn encoding(value: UserView) -> Seq<u8> {
        u64_bytes(value.id) + text_bytes(value.username) + text_bytes(value.public_key)
    }

    open spec fn decoding(bytes: Seq<u8>) -> Option<UserView> {
        match read_u64(bytes) {
            Some((id, after_id)) => match read_text(after_id) {
                Some((username, after_name)) => match read_text(after_name) {
                    Some((public_key, rest)) => if rest.len() == 0 {
                        Some(UserView { id, username, public_key })
                    } else {
                        None
                    },
                    None => None,
                },
                None => None,
            },
            None => None,
        }
    }

    open spec fn id_of(value: UserView) -> u64 {
        value.id
    }

    fn id(&self) -> (id: u64) {
        self.id
    }

    proof fn lemma_decoding_of_encoding(value: UserView) {
        lemma_user_size(value);
        let t3 = Seq::<u8>::empty();
        let t2 = text_bytes(value.public_key) + t3;
        let t1 = text_bytes(value.username) + t2;
        assert(Self::encoding(value) =~= u64_bytes(value.id) + t1);
        lemma_read_u64(value.id, t1);
        lemma_read_text(value.username, t2);
        lemma_read_text(value.public_key, t3);
    }

    fn to_bytes(&self) -> (bytes: Vec<u8>) {
        let mut bytes: Vec<u8> = Vec::new();
        put_u64(&mut bytes, self.id);
        put_text(&mut bytes, self.username.as_str());
        put_text(&mut bytes, self.public_key.as_str());
        proof {
            assert(bytes@ =~= Self::encoding(self@));
        }
        bytes
    }

    fn from_bytes(bytes: &[u8]) -> (value: Option<Self>) {
        proof {
            assert(bytes@.skip(0) =~= bytes@);
        }
        let (id, at) = match take_u64(bytes, 0) {
            Some(field) => field,
            None => return None,
        };
        let (username, at) = match take_text(bytes, at) {
            Some(field) => field,
            None => return None,
        };
        let (public_key, at) = match take_text(bytes, at) {
            Some(field) => field,
            None => return None,
        };
        if at != bytes.len() {
            return None;
        }
        Some(User { id, username, public_key })
    }
}

} // verus!
