use determ::lines::{decode_line, text_line};

#[test]
fn crlf_ends_a_line() {
    assert_eq!(decode_line(b"hello\r\n"), Some("hello".to_string()));
}

#[test]
fn bare_line_feed_ends_a_line() {
    assert_eq!(decode_line(b"hello\n"), Some("hello".to_string()));
}

#[test]
fn invalid_text_gives_no_line() {
    assert_eq!(decode_line(b"he\xffllo\n"), None);
    assert_eq!(decode_line(&[0xc3, 0x0a]), None);
    assert_eq!(decode_line(&[0xed, 0xa0, 0x80, 0x0a]), None);
    assert_eq!(decode_line(&[0xc0, 0x80, 0x0a]), None);
    assert_eq!(decode_line(&[0xf4, 0x90, 0x80, 0x80, 0x0a]), None);
    assert_eq!(decode_line(&[0x80, 0x0a]), None);
}

#[test]
fn widest_characters_are_decoded() {
    assert_eq!(decode_line(&[0xf4, 0x8f, 0xbf, 0xbf, 0x0a]), Some("\u{10ffff}".to_string()));
    assert_eq!(decode_line(&[0xed, 0x9f, 0xbf, 0x0a]), Some("\u{d7ff}".to_string()));
    assert_eq!(decode_line(&[0x00, 0x0a]), Some("\0".to_string()));
}

#[test]
fn multi_byte_text_is_decoded() {
    assert_eq!(
        decode_line("gr\u{fc}\u{df}e \u{1f600}\r\n".as_bytes()),
        Some("gr\u{fc}\u{df}e \u{1f600}".to_string())
    );
}

#[test]
fn empty_line() {
    assert_eq!(decode_line(b"\n"), Some(String::new()));
    assert_eq!(decode_line(b"\r\n"), Some(String::new()));
}

#[test]
fn buffer_without_line_feed_holds_no_line() {
    assert_eq!(decode_line(b"hello"), None);
    assert_eq!(decode_line(b"hello\r"), None);
    assert_eq!(decode_line(b""), None);
}

#[test]
fn line_is_cut_at_the_first_ending() {
    assert_eq!(text_line("one\ntwo\n"), Some("one".to_string()));
    assert_eq!(text_line("one\r\ntwo\r\n"), Some("one".to_string()));
}

#[test]
fn crlf_pair_goes_before_a_bare_line_feed() {
    assert_eq!(text_line("ab\ncd\r\nef"), Some("ab\ncd".to_string()));
}

#[test]
fn lone_carriage_return_stays_in_the_line() {
    assert_eq!(text_line("a\rb\n"), Some("a\rb".to_string()));
    assert_eq!(text_line("a\r\r\n"), Some("a\r".to_string()));
}

#[test]
fn line_feed_before_carriage_return_is_bare() {
    assert_eq!(text_line("a\n\r"), Some("a".to_string()));
}
