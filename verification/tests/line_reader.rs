use rustweb::line::{read_line_bytes, LineOutcome};

fn expect_line(input: &[u8], max_len: usize, at_eof: bool, line: &[u8], consumed: usize) {
    match read_line_bytes(input, max_len, at_eof) {
        LineOutcome::Line { line: l, consumed: c } => {
            assert_eq!(l.as_slice(), line);
            assert_eq!(c, consumed);
        }
        LineOutcome::NeedMore => panic!("expected a complete line"),
    }
}

fn expect_need_more(input: &[u8], max_len: usize, at_eof: bool) {
    match read_line_bytes(input, max_len, at_eof) {
        LineOutcome::Line { .. } => panic!("expected NeedMore"),
        LineOutcome::NeedMore => {}
    }
}

#[test]
fn crlf_request_line_collapses() {
    expect_line(b"GET / HTTP/1.1\r\n", 1024, false, b"GET / HTTP/1.1", 16);
}

#[test]
fn bare_lf_ends_line() {
    expect_line(b"abc\ndef", 1024, false, b"abc", 4);
}

#[test]
fn cr_followed_by_other_byte_consumes_cr_only() {
    expect_line(b"abc\rdef", 1024, false, b"abc", 4);
}

#[test]
fn leading_lf_gives_empty_line() {
    expect_line(b"\nrest", 1024, false, b"", 1);
}

#[test]
fn crlf_alone_gives_empty_line() {
    expect_line(b"\r\nrest", 1024, false, b"", 2);
}

#[test]
fn max_len_truncates_line() {
    expect_line(b"abcdef\r\n", 3, false, b"abc", 3);
}

#[test]
fn no_terminator_needs_more() {
    expect_need_more(b"partial line", 1024, false);
}

#[test]
fn trailing_cr_needs_more_before_eof() {
    expect_need_more(b"abc\r", 1024, false);
}

#[test]
fn trailing_cr_completes_at_eof() {
    expect_line(b"abc\r", 1024, true, b"abc", 4);
}

#[test]
fn no_terminator_at_eof_still_needs_more() {
    expect_need_more(b"partial line", 1024, true);
}
