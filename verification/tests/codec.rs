use course_registry::codec::{
    put_ids, put_opt, put_text, put_u64, take_ids, take_opt, take_text, take_u64,
};

#[test]
fn integer_field_is_eight_bytes_least_significant_first() {
    let mut out = Vec::new();
    put_u64(&mut out, 0x0102030405060708);
    assert_eq!(out, vec![8, 7, 6, 5, 4, 3, 2, 1]);
}

#[test]
fn integer_field_is_appended_to_what_is_there() {
    let mut out = vec![9u8];
    put_u64(&mut out, 1);
    assert_eq!(out, vec![9, 1, 0, 0, 0, 0, 0, 0, 0]);
}

#[test]
fn integer_field_reads_back_at_an_offset() {
    let mut out = vec![0xffu8, 0xff];
    put_u64(&mut out, u64::MAX - 1);
    assert_eq!(take_u64(&out, 2), Some((u64::MAX - 1, 10)));
}

#[test]
fn integer_field_needs_eight_bytes() {
    assert_eq!(take_u64(&[1, 2, 3, 4, 5, 6, 7], 0), None);
    assert_eq!(take_u64(&[1, 2, 3, 4, 5, 6, 7, 8], 1), None);
    assert_eq!(take_u64(&[], 0), None);
}

#[test]
fn text_field_is_length_then_utf8() {
    let mut out = Vec::new();
    put_text(&mut out, "hé");
    assert_eq!(out, vec![3, 0, 0, 0, 0, 0, 0, 0, b'h', 0xc3, 0xa9]);
}

#[test]
fn empty_text_field_is_a_zero_length() {
    let mut out = Vec::new();
    put_text(&mut out, "");
    assert_eq!(out, vec![0u8; 8]);
    assert_eq!(take_text(&out, 0), Some((String::new(), 8)));
}

#[test]
fn text_field_reads_back_and_leaves_the_rest() {
    let mut out = Vec::new();
    put_text(&mut out, "Algebra ∑");
    put_u64(&mut out, 5);
    let (text, next) = take_text(&out, 0).unwrap();
    assert_eq!(text, "Algebra ∑");
    assert_eq!(next, 8 + "Algebra ∑".len());
    assert_eq!(take_u64(&out, next), Some((5, out.len())));
}

#[test]
fn text_field_shorter_than_announced_is_refused() {
    let bytes = [4u8, 0, 0, 0, 0, 0, 0, 0, b'a', b'b', b'c'];
    assert_eq!(take_text(&bytes, 0), None);
}

#[test]
fn text_field_with_a_huge_length_is_refused() {
    let bytes = [0xffu8; 12];
    assert_eq!(take_text(&bytes, 0), None);
}

#[test]
fn text_field_that_is_not_utf8_is_refused() {
    let bytes = [2u8, 0, 0, 0, 0, 0, 0, 0, 0xc3, 0x28];
    assert_eq!(take_text(&bytes, 0), None);
    let lone = [1u8, 0, 0, 0, 0, 0, 0, 0, 0x80];
    assert_eq!(take_text(&lone, 0), None);
}

#[test]
fn identifier_list_is_count_then_identifiers() {
    let mut out = Vec::new();
    put_ids(&mut out, &vec![3, 258]);
    assert_eq!(
        out,
        vec![2, 0, 0, 0, 0, 0, 0, 0, 3, 0, 0, 0, 0, 0, 0, 0, 2, 1, 0, 0, 0, 0, 0, 0]
    );
}

#[test]
fn identifier_list_reads_back_in_order() {
    let ids = vec![9, 1, u64::MAX, 0, 4];
    let mut out = vec![7u8];
    put_ids(&mut out, &ids);
    out.push(1);
    assert_eq!(take_ids(&out, 1), Some((ids, out.len() - 1)));
}

#[test]
fn empty_identifier_list_reads_back() {
    let mut out = Vec::new();
    put_ids(&mut out, &Vec::new());
    assert_eq!(out.len(), 8);
    assert_eq!(take_ids(&out, 0), Some((Vec::new(), 8)));
}

#[test]
fn identifier_list_shorter_than_announced_is_refused() {
    let mut out = Vec::new();
    put_ids(&mut out, &vec![1, 2, 3]);
    out.pop();
    assert_eq!(take_ids(&out, 0), None);
    assert_eq!(take_ids(&[0xff; 16], 0), None);
}

#[test]
fn optional_field_is_a_tag_and_an_integer() {
    let mut some = Vec::new();
    put_opt(&mut some, Some(5));
    assert_eq!(some, vec![1, 5, 0, 0, 0, 0, 0, 0, 0]);
    let mut none = Vec::new();
    put_opt(&mut none, None);
    assert_eq!(none, vec![0u8; 9]);
}

#[test]
fn optional_field_reads_back() {
    let mut out = Vec::new();
    put_opt(&mut out, Some(0));
    put_opt(&mut out, None);
    put_opt(&mut out, Some(u64::MAX));
    assert_eq!(take_opt(&out, 0), Some((Some(0), 9)));
    assert_eq!(take_opt(&out, 9), Some((None, 18)));
    assert_eq!(take_opt(&out, 18), Some((Some(u64::MAX), 27)));
}

#[test]
fn optional_field_with_a_bad_tag_is_refused() {
    assert_eq!(take_opt(&[2, 0, 0, 0, 0, 0, 0, 0, 0], 0), None);
    assert_eq!(take_opt(&[255, 1, 0, 0, 0, 0, 0, 0, 0], 0), None);
}

#[test]
fn absent_optional_field_must_be_written_as_zero() {
    assert_eq!(take_opt(&[0, 1, 0, 0, 0, 0, 0, 0, 0], 0), None);
}

#[test]
fn optional_field_needs_nine_bytes() {
    assert_eq!(take_opt(&[1, 0, 0, 0, 0, 0, 0, 0], 0), None);
    assert_eq!(take_opt(&[1, 0, 0, 0, 0, 0, 0, 0, 0], 1), None);
}

#[test]
fn nothing_is_read_from_behind_the_end() {
    let bytes = [0u8; 16];
    assert_eq!(take_u64(&bytes, 17), None);
    assert_eq!(take_text(&bytes, 17), None);
    assert_eq!(take_ids(&bytes, usize::MAX), None);
    assert_eq!(take_opt(&bytes, 100), None);
    assert_eq!(take_u64(&bytes, 16), None);
    assert_eq!(take_u64(&bytes, 8), Some((0, 16)));
}
