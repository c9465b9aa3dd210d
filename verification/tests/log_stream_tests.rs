use enclave_runner::log_stream::LineBuffer;

#[test]
fn write_hands_on_complete_lines() {
    let mut b = LineBuffer::new();
    let (n, lines) = b.write(b"first\nsecond\nthi");
    assert_eq!(n, 16);
    assert_eq!(lines, vec!["first".to_string(), "second".to_string()]);
    let (n, lines) = b.write(b"rd\n");
    assert_eq!(n, 3);
    assert_eq!(lines, vec!["third".to_string()]);
    assert!(b.flush().is_empty());
}

#[test]
fn flush_hands_on_unfinished_line() {
    let mut b = LineBuffer::new();
    let (_, lines) = b.write(b"no newline yet");
    assert!(lines.is_empty());
    assert_eq!(b.flush(), vec!["no newline yet".to_string()]);
    assert!(b.flush().is_empty());
}

#[test]
fn empty_lines_are_kept() {
    let mut b = LineBuffer::new();
    let (_, lines) = b.write(b"\n\na\n");
    assert_eq!(lines, vec![String::new(), String::new(), "a".to_string()]);
}

#[test]
fn flush_lines_without_incomplete_keeps_rest() {
    let mut b = LineBuffer::new();
    b.write(b"x");
    assert!(b.flush_lines(false).is_empty());
    assert_eq!(b.flush_lines(true), vec!["x".to_string()]);
}

#[test]
fn invalid_utf8_is_replaced() {
    let mut b = LineBuffer::new();
    let (_, lines) = b.write(b"a\xffb\n");
    assert_eq!(lines, vec!["a\u{FFFD}b".to_string()]);
}

#[test]
fn chunking_does_not_change_lines() {
    let data: &[u8] = b"alpha\nbeta\ngamma\ndelta";
    let mut whole = LineBuffer::new();
    let (_, mut all_at_once) = whole.write(data);
    all_at_once.extend(whole.flush());
    for cut in 0..data.len() {
        let mut pieces = LineBuffer::new();
        let (_, mut lines) = pieces.write(&data[..cut]);
        lines.extend(pieces.write(&data[cut..]).1);
        lines.extend(pieces.flush());
        assert_eq!(lines, all_at_once, "cut at {}", cut);
    }
}

#[test]
fn flush_splits_empty_middle_line() {
    let mut b = LineBuffer::new();
    let (_, lines) = b.write(b"ab\n\ncd");
    assert_eq!(lines, vec!["ab".to_string(), String::new()]);
    assert_eq!(b.flush(), vec!["cd".to_string()]);
}

#[test]
fn many_writes_give_the_same_lines() {
    let data: &[u8] = b"one\ntwo\n\nthree\nfo";
    let mut whole = LineBuffer::new();
    let (_, mut expected) = whole.write(data);
    expected.extend(whole.flush());
    for size in 1..=data.len() {
        let mut pieces = LineBuffer::new();
        let mut got = Vec::new();
        for chunk in data.chunks(size) {
            let (n, lines) = pieces.write(chunk);
            assert_eq!(n, chunk.len());
            got.extend(lines);
        }
        got.extend(pieces.flush());
        assert_eq!(got, expected, "chunk size {}", size);
    }
}
