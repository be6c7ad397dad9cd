//! Byte framing for stored records.
//!
//! A record is a sequence of fields written one after the other. Four kinds
//! of field exist:
//!
//! * an integer: eight bytes, least significant first;
//! * a text: the byte length of its UTF-8 form as an integer, then the bytes;
//! * a list of identifiers: their number as an integer, then each as an integer;
//! * an optional integer: one tag byte (1 when present, 0 when absent), then
//!   the integer, which is zero when absent.
//!
//! Every field has a writer that appends to a buffer and a reader that starts
//! at an offset. What they do is stated against the spec functions below, and
//! each `lemma_read_*` shows that reading what was written gives the value
//! back and leaves what followed it.

use vstd::prelude::*;
use vstd::bytes::{
    lemma_auto_spec_u64_to_from_le_bytes, spec_u64_from_le_bytes, spec_u64_to_le_bytes,
    u64_from_le_bytes, u64_to_le_bytes,
};
use vstd::slice::{slice_subrange, slice_to_vec};
use vstd::utf8::{
    decode_utf8, encode_utf8, encode_utf8_decode_utf8, encode_utf8_valid_utf8, valid_utf8,
};

verus! {

/// The eight bytes of an integer field.
pub open spec fn u64_bytes(x: u64) -> Seq<u8> {
    spec_u64_to_le_bytes(x)
}

/// Reads an integer field from the front of `input`: the value and what
/// follows it, or `None` when fewer than eight bytes are left.
pub open spec fn read_u64(input: Seq<u8>) -> Option<(u64, Seq<u8>)> {
    if input.len() >= 8 {
        Some((spec_u64_from_le_bytes(input.take(8)), input.skip(8)))
    } else {
        None
    }
}

/// An integer field is eight bytes long.
pub proof fn lemma_u64_bytes_len(x: u64)
    ensures
        u64_bytes(x).len() == 8,
{
    lemma_auto_spec_u64_to_from_le_bytes();
}

/// Reading a written integer gives it back.
pub proof fn lemma_read_u64(x: u64, tail: Seq<u8>)
    ensures
        read_u64(u64_bytes(x) + tail) == Some((x, tail)),
{
    lemma_auto_spec_u64_to_from_le_bytes();
    let input = u64_bytes(x) + tail;
    assert(input.take(8) =~= u64_bytes(x));
    assert(input.skip(8) =~= tail);
}

/// The bytes of a text field.
pub open spec fn text_bytes(s: Seq<char>) -> Seq<u8> {
    u64_bytes(encode_utf8(s).len() as u64) + encode_utf8(s)
}

/// Reads a text field from the front of `input`. It fails when the length
/// is missing, when fewer bytes than it announces are left, or when they are
/// not UTF-8.
pub open spec fn read_text(input: Seq<u8>) -> Option<(Seq<char>, Seq<u8>)> {
    match read_u64(input) {
        Some((n, rest)) => {
            if n <= rest.len() && valid_utf8(rest.take(n as int)) {
                Some((decode_utf8(rest.take(n as int)), rest.skip(n as int)))
            } else {
                None
            }
        },
        None => None,
    }
}

/// Reading a written text gives it back.
pub proof fn lemma_read_text(s: Seq<char>, tail: Seq<u8>)
    requires
        encode_utf8(s).len() <= u64::MAX,
    ensures
        read_text(text_bytes(s) + tail) == Some((s, tail)),
{
    let raw = encode_utf8(s);
    let n = raw.len() as u64;
    assert(text_bytes(s) + tail =~= u64_bytes(n) + (raw + tail));
    lemma_read_u64(n, raw + tail);
    assert((raw + tail).take(n as int) =~= raw);
    assert((raw + tail).skip(n as int) =~= tail);
    encode_utf8_valid_utf8(s);
    encode_utf8_decode_utf8(s);
}

/// The identifiers of a list, each as an integer field, in order.
pub open spec fn packed_ids(ids: Seq<u64>) -> Seq<u8>
    decreases ids.len(),
{
    if ids.len() == 0 {
        Seq::empty()
    } else {
        packed_ids(ids.drop_last()) + u64_bytes(ids.last())
    }
}

/// The `count` identifiers that stand at the front of `input`.
pub open spec fn unpacked_ids(input: Seq<u8>, count: nat) -> Seq<u64> {
    Seq::new(count, |i: int| spec_u64_from_le_bytes(input.subrange(8 * i, 8 * i + 8)))
}

/// The bytes of a list of identifiers.
pub open spec fn ids_bytes(ids: Seq<u64>) -> Seq<u8> {
    u64_bytes(ids.len() as u64) + packed_ids(ids)
}

/// Reads a list of identifiers from the front of `input`. It fails when the
/// count is missing or when fewer identifiers than it announces are left.
pub open spec fn read_ids(input: Seq<u8>) -> Option<(Seq<u64>, Seq<u8>)> {
    match read_u64(input) {
        Some((n, rest)) => {
            if 8 * n <= rest.len() {
                Some((unpacked_ids(rest, n as nat), rest.skip(8 * n)))
            } else {
                None
            }
        },
        None => None,
    }
}

/// A packed list takes eight bytes for each identifier, and the identifier
/// at index `i` stands at offset `8 * i`.
pub proof fn lemma_packed_ids(ids: Seq<u64>)
    ensures
        packed_ids(ids).len() == 8 * ids.len(),
        forall|i: int|
            0 <= i < ids.len() ==> #[trigger] packed_ids(ids).subrange(8 * i, 8 * i + 8)
                == u64_bytes(ids[i]),
    decreases ids.len(),
{
    if ids.len() > 0 {
        let front = ids.drop_last();
        lemma_packed_ids(front);
        lemma_u64_bytes_len(ids.last());
        let all = packed_ids(ids);
        assert forall|i: int| 0 <= i < ids.len() implies #[trigger] all.subrange(8 * i, 8 * i + 8)
            == u64_bytes(ids[i]) by {
            if i < front.len() {
                assert(all.subrange(8 * i, 8 * i + 8) =~= packed_ids(front).subrange(
                    8 * i,
                    8 * i + 8,
                ));
                assert(front[i] == ids[i]);
            } else {
                assert(all.subrange(8 * i, 8 * i + 8) =~= u64_bytes(ids.last()));
            }
        }
    }
}

/// Reading a written list of identifiers gives it back.
pub proof fn lemma_read_ids(ids: Seq<u64>, tail: Seq<u8>)
    requires
        ids.len() <= u64::MAX,
    ensures
        read_ids(ids_bytes(ids) + tail) == Some((ids, tail)),
{
    let n = ids.len() as u64;
    let body = packed_ids(ids);
    assert(ids_bytes(ids) + tail =~= u64_bytes(n) + (body + tail));
    lemma_read_u64(n, body + tail);
    lemma_packed_ids(ids);
    lemma_auto_spec_u64_to_from_le_bytes();
    let rest = body + tail;
    assert((body + tail).skip(8 * n) =~= tail);
    assert forall|i: int| 0 <= i < ids.len() implies #[trigger] unpacked_ids(rest, n as nat)[i]
        == ids[i] by {
        assert(rest.subrange(8 * i, 8 * i + 8) =~= body.subrange(8 * i, 8 * i + 8));
    }
    assert(unpacked_ids(rest, n as nat) =~= ids);
}

/// The nine bytes of an optional integer field.
pub open spec fn opt_bytes(o: Option<u64>) -> Seq<u8> {
    match o {
        Some(x) => seq![1u8] + u64_bytes(x),
        None => seq![0u8] + u64_bytes(0),
    }
}

/// Reads an optional integer field from the front of `input`. It fails when
/// fewer than nine bytes are left, when the tag is neither 0 nor 1, or when
/// an absent value is not written as zero.
pub open spec fn read_opt(input: Seq<u8>) -> Option<(Option<u64>, Seq<u8>)> {
    if input.len() >= 9 {
        let x = spec_u64_from_le_bytes(input.subrange(1, 9));
        if input[0] == 1 {
            Some((Some(x), input.skip(9)))
        } else if input[0] == 0 && x == 0 {
            Some((None, input.skip(9)))
        } else {
            None
        }
    } else {
        None
    }
}

/// An optional integer field is nine bytes long.
pub proof fn lemma_opt_bytes_len(o: Option<u64>)
    ensures
        opt_bytes(o).len() == 9,
{
    lemma_auto_spec_u64_to_from_le_bytes();
}

/// Reading a written optional integer gives it back.
pub proof fn lemma_read_opt(o: Option<u64>, tail: Seq<u8>)
    ensures
        read_opt(opt_bytes(o) + tail) == Some((o, tail)),
{
    lemma_auto_spec_u64_to_from_le_bytes();
    let input = opt_bytes(o) + tail;
    let x = match o {
        Some(x) => x,
        None => 0,
    };
    assert(input.subrange(1, 9) =~= u64_bytes(x));
    assert(input.skip(9) =~= tail);
}

/// Tells whether two byte strings are the same.
pub fn same_bytes(a: &[u8], b: &[u8]) -> (same: bool)
    ensures
        same == (a@ == b@),
{
    if a.len() != b.len() {
        return false;
    }
    let mut i: usize = 0;
    while i < a.len()
        invariant
            a@.len() == b@.len(),
            i <= a@.len(),
            a@.take(i as int) == b@.take(i as int),
        decreases a@.len() - i,
    {
        if a[i] != b[i] {
            return false;
        }
        proof {
            assert(a@.take(i + 1) =~= a@.take(i as int).push(a@[i as int]));
            assert(b@.take(i + 1) =~= b@.take(i as int).push(b@[i as int]));
        }
        i += 1;
    }
    proof {
        assert(a@.take(i as int) =~= a@);
        assert(b@.take(i as int) =~= b@);
    }
    true
}

/// Appends an integer field to `out`.
pub fn put_u64(out: &mut Vec<u8>, x: u64)
    ensures
        final(out)@ == old(out)@ + u64_bytes(x),
{
    let mut field = u64_to_le_bytes(x);
    out.append(&mut field);
}

/// Reads the integer field that starts at offset `at`, and gives it with the
/// offset behind it.
pub fn take_u64(input: &[u8], at: usize) -> (r: Option<(u64, usize)>)
    ensures
        at > input@.len() ==> (r is None),
        at <= input@.len() ==> (match r {
            Some((x, next)) => at <= next <= input@.len() && read_u64(input@.skip(at as int))
                == Some((x, input@.skip(next as int))),
            None => read_u64(input@.skip(at as int)) is None,
        }),
{
    if at > input.len() {
        return None;
    }
    if input.len() - at < 8 {
        None
    } else {
        let x = u64_from_le_bytes(slice_subrange(input, at, at + 8));
        proof {
            assert(input@.skip(at as int).take(8) =~= input@.subrange(at as int, at + 8));
            assert(input@.skip(at as int).skip(8) =~= input@.skip(at + 8));
        }
        Some((x, at + 8))
    }
}

/// `String::from_utf8` of std: the text that a byte string holds, where it is
/// UTF-8, and `None` where it is not. The contract states the function's
/// documented result over vstd's definition of UTF-8.
#[verifier::external_body]
fn text_from_utf8(raw: Vec<u8>) -> (text: Option<String>)
    ensures
        text is Some <==> valid_utf8(raw@),
        text matches Some(s) ==> s@ == decode_utf8(raw@),
{
    String::from_utf8(raw).ok()
}

/// Appends a text field to `out`.
pub fn put_text(out: &mut Vec<u8>, s: &str)
    ensures
        final(out)@ == old(out)@ + text_bytes(s@),
{
    let raw = s.as_bytes();
    let n: usize = raw.len();
    put_u64(out, n as u64);
    let mut body = slice_to_vec(raw);
    out.append(&mut body);
    proof {
        assert(final(out)@ =~= old(out)@ + text_bytes(s@));
    }
}

/// Reads the text field that starts at offset `at`, and gives it with the
/// offset behind it.
pub fn take_text(input: &[u8], at: usize) -> (r: Option<(String, usize)>)
    ensures
        at > input@.len() ==> (r is None),
        at <= input@.len() ==> (match r {
            Some((s, next)) => at <= next <= input@.len() && read_text(input@.skip(at as int))
                == Some((s@, input@.skip(next as int))),
            None => read_text(input@.skip(at as int)) is None,
        }),
{
    if at > input.len() {
        return None;
    }
    match take_u64(input, at) {
        None => None,
        Some((n, start)) => {
            let left: usize = input.len() - start;
            if n > left as u64 {
                return None;
            }
            let len: usize = n as usize;
            let raw = slice_to_vec(slice_subrange(input, start, start + len));
            proof {
                let rest = input@.skip(start as int);
                assert(rest.take(n as int) =~= raw@);
                assert(rest.skip(n as int) =~= input@.skip(start + len));
            }
            match text_from_utf8(raw) {
                Some(s) => Some((s, start + len)),
                None => None,
            }
        },
    }
}

/// Appends a list of identifiers to `out`.
pub fn put_ids(out: &mut Vec<u8>, ids: &Vec<u64>)
    ensures
        final(out)@ == old(out)@ + ids_bytes(ids@),
{
    let n: usize = ids.len();
    put_u64(out, n as u64);
    let mut i: usize = 0;
    while i < n
        invariant
            n == ids@.len(),
            i <= n,
            out@ == old(out)@ + u64_bytes(n as u64) + packed_ids(ids@.take(i as int)),
        decreases n - i,
    {
        put_u64(out, ids[i]);
        proof {
            let before = ids@.take(i as int);
            let after = ids@.take(i + 1);
            assert(after.drop_last() =~= before);
            assert(after.last() == ids@[i as int]);
            assert(out@ =~= old(out)@ + u64_bytes(n as u64) + packed_ids(after));
        }
        i += 1;
    }
    proof {
        assert(ids@.take(n as int) =~= ids@);
        assert(out@ =~= old(out)@ + ids_bytes(ids@));
    }
}

/// Reads the list of identifiers that starts at offset `at`, and gives it
/// with the offset behind it.
pub fn take_ids(input: &[u8], at: usize) -> (r: Option<(Vec<u64>, usize)>)
    ensures
        at > input@.len() ==> (r is None),
        at <= input@.len() ==> (match r {
            Some((ids, next)) => at <= next <= input@.len() && read_ids(input@.skip(at as int))
                == Some((ids@, input@.skip(next as int))),
            None => read_ids(input@.skip(at as int)) is None,
        }),
{
    if at > input.len() {
        return None;
    }
    match take_u64(input, at) {
        None => None,
        Some((n, start)) => {
            let left: usize = input.len() - start;
            if n > (left / 8) as u64 {
                return None;
            }
            let count: usize = n as usize;
            let ghost rest = input@.skip(start as int);
            let mut ids: Vec<u64> = Vec::new();
            let mut i: usize = 0;
            while i < count
                invariant
                    start <= input@.len() <= usize::MAX,
                    rest == input@.skip(start as int),
                    8 * count <= input@.len() - start,
                    i <= count,
                    ids@ == unpacked_ids(rest, i as nat),
                decreases count - i,
            {
                let from: usize = start + 8 * i;
                let x = u64_from_le_bytes(slice_subrange(input, from, from + 8));
                ids.push(x);
                proof {
                    assert(rest.subrange(8 * i, 8 * i + 8) =~= input@.subrange(
                        from as int,
                        from + 8,
                    ));
                    assert(ids@ =~= unpacked_ids(rest, (i + 1) as nat));
                }
                i += 1;
            }
            proof {
                assert(rest.skip(8 * n) =~= input@.skip(start + 8 * count));
            }
            Some((ids, start + 8 * count))
        },
    }
}

/// Appends an optional integer field to `out`.
pub fn put_opt(out: &mut Vec<u8>, o: Option<u64>)
    ensures
        final(out)@ == old(out)@ + opt_bytes(o),
{
    match o {
        Some(x) => {
            out.push(1u8);
            put_u64(out, x);
            proof {
                assert(out@ =~= old(out)@ + opt_bytes(o));
            }
        },
        None => {
            out.push(0u8);
            put_u64(out, 0);
            proof {
                assert(out@ =~= old(out)@ + opt_bytes(o));
            }
        },
    }
}

/// Reads the optional integer field that starts at offset `at`, and gives it
/// with the offset behind it.
pub fn take_opt(input: &[u8], at: usize) -> (r: Option<(Option<u64>, usize)>)
    ensures
        at > input@.len() ==> (r is None),
        at <= input@.len() ==> (match r {
            Some((o, next)) => at <= next <= input@.len() && read_opt(input@.skip(at as int))
                == Some((o, input@.skip(next as int))),
            None => read_opt(input@.skip(at as int)) is None,
        }),
{
    if at > input.len() {
        return None;
    }
    if input.len() - at < 9 {
        return None;
    }
    let tag: u8 = input[at];
    let x = u64_from_le_bytes(slice_subrange(input, at + 1, at + 9));
    proof {
        let rest = input@.skip(at as int);
        assert(rest.subrange(1, 9) =~= input@.subrange(at + 1, at + 9));
        assert(rest.skip(9) =~= input@.skip(at + 9));
        assert(rest[0] == input@[at as int]);
    }
    if tag == 1 {
        Some((Some(x), at + 9))
    } else if tag == 0 && x == 0 {
        Some((None, at + 9))
    } else {
        None
    }
}

} // verus!
