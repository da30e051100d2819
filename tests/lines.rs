use count_locs::classify::{is_counted_line, is_valid_line};
use count_locs::lines::{count_lines, is_counted_bytes};

#[test]
fn whitespace_only_lines_do_not_count() {
    assert!(!is_counted_line(""));
    assert!(!is_counted_line("   \t  "));
    assert!(!is_counted_line("\u{3000}\u{a0}"));
    assert!(is_counted_line("  x  "));
    assert!(is_counted_line("// a comment"));
}

#[test]
fn valid_line_keeps_content_and_drops_errors() {
    assert_eq!(is_valid_line(Ok("fn f() {}".to_string())), Some("fn f() {}".to_string()));
    assert_eq!(is_valid_line(Ok(" \t ".to_string())), None);
    let err = std::io::Error::new(std::io::ErrorKind::InvalidData, "bad line");
    assert_eq!(is_valid_line(Err(err)), None);
}

#[test]
fn last_line_without_newline_counts() {
    assert_eq!(count_lines(b"a\nb"), 2);
    assert_eq!(count_lines(b"a\nb\n"), 2);
}

#[test]
fn empty_content_has_no_lines() {
    assert_eq!(count_lines(b""), 0);
    assert_eq!(count_lines(b"\n\n\n"), 0);
    assert_eq!(count_lines(b"\r\n\r\n"), 0);
}

#[test]
fn line_endings_do_not_change_the_count() {
    let lf = b"one\n\ntwo\n  \nthree\n";
    let crlf = b"one\r\n\r\ntwo\r\n  \r\nthree\r\n";
    assert_eq!(count_lines(lf), 3);
    assert_eq!(count_lines(crlf), 3);
}

#[test]
fn invalid_utf8_line_is_excluded() {
    assert_eq!(count_lines(&[0xff, 0xfe, b'\n', b'o', b'k', b'\n']), 1);
    assert!(!is_counted_bytes(&[0xc0, 0x80]));
    assert!(is_counted_bytes("é".as_bytes()));
}

#[test]
fn non_ascii_whitespace_line_is_blank() {
    assert_eq!(count_lines("\u{3000}\n\u{2003}x\n".as_bytes()), 1);
}
