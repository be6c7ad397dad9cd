//! What a type needs so that a repository can store its values.

use vstd::prelude::*;

verus! {

/// The largest number of bytes that a table takes for one record: a table
/// writes the length of a record as a 32-bit number.
pub const MAX_RECORD_SIZE: usize = 0xffff_ffff;

/// A value with a byte form that can be read back.
pub trait Record: View + Sized {
    /// The bytes of a value.
    spec fn encoding(value: Self::V) -> Seq<u8>;

    /// The value that the whole of `bytes` holds, if it holds one.
    spec fn decoding(bytes: Seq<u8>) -> Option<Self::V>;

    /// The identifier that a value carries.
    spec fn id_of(value: Self::V) -> u64;

    /// Decoding the bytes of a value gives the value back.
    proof fn lemma_decoding_of_encoding(value: Self::V)
        requires
            Self::encoding(value).len() <= u64::MAX,
        ensures
            Self::decoding(Self::encoding(value)) == Some(value),
    ;

    /// The identifier that the value carries.
    fn id(&self) -> (id: u64)
        ensures
            id == Self::id_of(self@),
    ;

    /// Writes the value as bytes.
    fn to_bytes(&self) -> (bytes: Vec<u8>)
        ensures
            bytes@ == Self::encoding(self@),
    ;

    /// Reads a value from bytes, where they hold one and nothing else.
    fn from_bytes(bytes: &[u8]) -> (value: Option<Self>)
        ensures
            match value {
                Some(v) => Self::decoding(bytes@) == Some(v@),
                None => Self::decoding(bytes@) is None,
            },
    ;
}

/// Whether a value is no larger than a table takes.
pub open spec fn storable<V: Record>(value: V::V) -> bool {
    V::encoding(value).len() <= MAX_RECORD_SIZE
}

/// Tells whether a value is no larger than a table takes.
pub fn is_storable<V: Record>(value: &V) -> (fits: bool)
    ensures
        fits == storable::<V>(value@),
{
    value.to_bytes().len() <= MAX_RECORD_SIZE
}

} // verus!
