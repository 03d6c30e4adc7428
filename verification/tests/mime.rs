use jmap_mail::mime::crlf;

#[test]
fn a_line_ending_is_crlf_and_only_the_missing_cr_is_added() {
    assert_eq!(crlf(b"a\nb".to_vec()), b"a\r\nb".to_vec());
    assert_eq!(crlf(b"a\r\nb".to_vec()), b"a\r\nb".to_vec());
    // A lone CR is not a line ending and is not this function's business.
    assert_eq!(crlf(b"a\rb".to_vec()), b"a\rb".to_vec());
    // Including the one at the very end, which has no LF to be part of.
    assert_eq!(crlf(b"a\r".to_vec()), b"a\r".to_vec());
}

#[test]
fn an_lf_at_the_start_of_the_message_gets_its_cr_too() {
    assert_eq!(crlf(b"\nbody".to_vec()), b"\r\nbody".to_vec());
    assert_eq!(crlf(b"\n".to_vec()), b"\r\n".to_vec());
}

#[test]
fn bytes_with_no_line_ending_in_them_are_left_alone() {
    assert_eq!(crlf(Vec::new()), Vec::<u8>::new());
    assert_eq!(crlf(b"\x00\xff\x7f".to_vec()), b"\x00\xff\x7f".to_vec());
}

#[test]
fn several_bare_line_feeds_each_get_a_carriage_return() {
    assert_eq!(crlf(b"a\nb\n\nc".to_vec()), b"a\r\nb\r\n\r\nc".to_vec());
}

#[test]
fn converting_twice_is_converting_once() {
    let once = crlf(b"x\ny\r\nz\n".to_vec());
    assert_eq!(crlf(once.clone()), once);
}
