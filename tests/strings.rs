use syslog_ng_filters::{
    c_str_length, from_c_buf_to_borrowed_str, from_c_str_to_borrowed_str,
    from_c_str_to_owned_string,
};

#[test]
fn owned_text_round_trips_to_same_bytes() {
    let bytes: &[u8] = b"h\xc3\xa9llo\0";
    let s = from_c_str_to_owned_string(bytes);
    assert_eq!(s, "h\u{e9}llo");
    assert_eq!(s.as_bytes(), &bytes[..6]);
}

#[test]
fn borrowed_text_stops_at_first_terminator() {
    let bytes: &[u8] = b"ab\0cd\0";
    assert_eq!(from_c_str_to_borrowed_str(bytes), "ab");
    assert_eq!(c_str_length(bytes), 2);
}

#[test]
fn empty_c_string_gives_empty_text() {
    assert_eq!(from_c_str_to_owned_string(b"\0"), "");
}

#[test]
fn explicit_length_takes_exactly_that_many_bytes() {
    let bytes: &[u8] = b"abcdef";
    assert_eq!(from_c_buf_to_borrowed_str(bytes, 3), "abc");
    assert_eq!(from_c_buf_to_borrowed_str(b"a\0b", 3), "a\0b");
    assert_eq!(from_c_buf_to_borrowed_str(bytes, 0), "");
}
