use ferric::text::expand_lf_to_crlf;

#[test]
fn lone_lf_expands_to_crlf() {
    let out = expand_lf_to_crlf("a\nb\r\nc".as_bytes());
    assert_eq!(out, b"a\r\nb\r\r\nc");
}

#[test]
fn empty_and_untouched_strings_pass_through() {
    let empty = expand_lf_to_crlf("".as_bytes());
    assert!(empty.is_empty());

    let plain = expand_lf_to_crlf("plain \t text".as_bytes());
    assert_eq!(plain, b"plain \t text");
}

#[test]
fn consecutive_newlines_each_expand() {
    assert_eq!(expand_lf_to_crlf(b"\n\n"), b"\r\n\r\n");
}
