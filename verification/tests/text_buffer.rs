use quickdiff::text::TextBuffer;

#[test]
fn empty_buffer() {
    let buf = TextBuffer::new(b"");
    assert_eq!(buf.line_count(), 0);
    assert!(buf.is_empty());
    assert_eq!(buf.line(0), None);
}

#[test]
fn single_line_no_newline() {
    let buf = TextBuffer::new(b"hello");
    assert_eq!(buf.line_count(), 1);
    assert_eq!(buf.line(0), Some(b"hello".as_slice()));
    assert_eq!(buf.line(1), None);
}

#[test]
fn single_line_with_newline() {
    let buf = TextBuffer::new(b"hello\n");
    assert_eq!(buf.line_count(), 1);
    assert_eq!(buf.line(0), Some(b"hello".as_slice()));
}

#[test]
fn multiple_lines() {
    let buf = TextBuffer::new(b"one\ntwo\nthree");
    assert_eq!(buf.line_count(), 3);
    assert_eq!(buf.line_str(0), Some("one".to_string()));
    assert_eq!(buf.line_str(1), Some("two".to_string()));
    assert_eq!(buf.line_str(2), Some("three".to_string()));
}

#[test]
fn crlf_normalization() {
    let buf = TextBuffer::new(b"one\r\ntwo\r\n");
    assert_eq!(buf.line_count(), 2);
    assert_eq!(buf.line_str(0), Some("one".to_string()));
    assert_eq!(buf.line_str(1), Some("two".to_string()));
}

#[test]
fn trailing_newline() {
    let buf = TextBuffer::new(b"a\nb\n");
    assert_eq!(buf.line_count(), 2);
    assert_eq!(buf.line_str(0), Some("a".to_string()));
    assert_eq!(buf.line_str(1), Some("b".to_string()));
}

#[test]
fn lines_iterator() {
    let buf = TextBuffer::new(b"a\nb\nc");
    let lines: Vec<String> = buf.lines();
    assert_eq!(lines, vec!["a", "b", "c"]);
}

#[test]
fn binary_detection() {
    let buf = TextBuffer::new(b"hello\x00world");
    assert!(buf.is_binary());

    let buf = TextBuffer::new(b"hello world\n");
    assert!(!buf.is_binary());
}

#[test]
fn crlf_bytes_are_normalized_in_storage() {
    let buf = TextBuffer::new(b"a\r\nb\rc\r\n");
    assert_eq!(buf.as_bytes(), b"a\nb\rc\n");
    assert_eq!(buf.len(), 6);
    assert_eq!(buf.line_count(), 2);
    assert_eq!(buf.line(1), Some(b"b\rc".as_slice()));
}

#[test]
fn lines_rejoin_to_the_buffer() {
    let buf = TextBuffer::new(b"x\ny\n\nz");
    let joined = buf.lines().join("\n");
    assert_eq!(joined, "x\ny\n\nz");
    assert_eq!(buf.line_count(), 4);
    assert_eq!(buf.line_str(2), Some(String::new()));
}

#[test]
fn nul_past_the_scan_window_is_text() {
    let mut bytes = vec![b'a'; 8000];
    bytes.push(0);
    let buf = TextBuffer::new(&bytes);
    assert!(!buf.is_binary());
    let mut bytes = vec![b'a'; 7999];
    bytes.push(0);
    assert!(TextBuffer::new(&bytes).is_binary());
}

#[test]
fn empty_buffer_and_its_copy() {
    let buf = TextBuffer::empty();
    assert!(buf.is_empty());
    assert_eq!(buf.line_count(), 0);
    let copy = TextBuffer::new(b"q\n").clone();
    assert_eq!(copy.line_str(0), Some("q".to_string()));
}

#[test]
fn invalid_utf8_line_is_replaced() {
    let buf = TextBuffer::new(b"ok\n\xff\n");
    assert_eq!(buf.line_str(1), Some("\u{FFFD}".to_string()));
}

#[test]
fn binary_by_share_of_control_bytes() {
    assert!(TextBuffer::new(&[0x01u8; 100]).is_binary());
    let mostly_text = b"hello\x07 world, this line rings a bell once\n";
    assert!(!TextBuffer::new(mostly_text).is_binary());
    let colored = b"\x1b[31mred\x1b[0m\r\n\tindented\x0c\n";
    assert!(!TextBuffer::new(colored).is_binary());
}

#[test]
fn valid_lines_decode_as_is() {
    let b = TextBuffer::new(b"one\r\ntwo\r\n");
    assert_eq!(b.line_str(0), Some("one".to_string()));
    assert_eq!(b.lines(), vec!["one".to_string(), "two".to_string()]);
}

#[test]
fn lines_rejoin_without_inner_newlines() {
    for input in [&b"one\ntwo\n"[..], &b"one\ntwo"[..], &b"\n\nx"[..], &b""[..]] {
        let b = TextBuffer::new(input);
        let n = b.line_count();
        let mut joined: Vec<u8> = Vec::new();
        for i in 0..n {
            let l = b.line(i).unwrap();
            assert!(!l.contains(&b'\n'));
            joined.extend_from_slice(l);
            if i + 1 < n || b.as_bytes().ends_with(b"\n") {
                joined.push(b'\n');
            }
        }
        assert_eq!(joined, b.as_bytes());
    }
}
