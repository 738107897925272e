use traceviewer::reader::{append_line_bytes, LineReader};

fn read_test_lines(input: &[u8], max_line_bytes: usize) -> Vec<String> {
    let mut reader = LineReader::new(max_line_bytes);
    let mut lines = Vec::new();
    let mut offset = 0;
    while offset < input.len() {
        let (consumed, ends_line) = reader.feed(&input[offset..]);
        offset += consumed;
        if ends_line {
            lines.push(reader.take_line());
        }
    }
    if let Some(line) = reader.finish() {
        lines.push(line);
    }
    lines
}

#[test]
fn bounded_reader_keeps_short_lines() {
    assert_eq!(
        read_test_lines(b"alpha\nbeta\n", 10),
        vec!["alpha".to_string(), "beta".to_string()]
    );
}

#[test]
fn bounded_reader_truncates_long_lines_and_recovers_at_newline() {
    assert_eq!(
        read_test_lines(b"abcdefghijkl\nnext\n", 5),
        vec!["abcde ... [truncated]".to_string(), "next".to_string()]
    );
}

#[test]
fn bounded_reader_truncates_final_line_without_newline() {
    assert_eq!(
        read_test_lines(b"abcdefghijkl", 5),
        vec!["abcde ... [truncated]".to_string()]
    );
}

#[test]
fn bounded_reader_uses_lossy_utf8_for_partial_codepoints() {
    assert_eq!(
        read_test_lines("aé\n".as_bytes(), 2),
        vec!["a\u{fffd} ... [truncated]".to_string()]
    );
}

#[test]
fn chunks_without_newline_accumulate() {
    let mut reader = LineReader::new(100);
    assert_eq!(reader.feed(b"ab"), (2, false));
    assert_eq!(reader.feed(b"c\nd"), (2, true));
    assert_eq!(reader.take_line(), "abc");
    assert_eq!(reader.feed(b""), (0, false));
    assert_eq!(reader.finish(), None);
}

#[test]
fn empty_lines_are_kept() {
    assert_eq!(read_test_lines(b"\n\nx", 4), vec!["".to_string(), "".to_string(), "x".to_string()]);
}

#[test]
fn appending_stops_at_the_limit() {
    let mut line = b"abc".to_vec();
    let mut truncated = false;
    append_line_bytes(&mut line, b"de", 4, &mut truncated);
    assert_eq!(line, b"abcd".to_vec());
    assert!(truncated);
    let mut fits = Vec::new();
    let mut cut = false;
    append_line_bytes(&mut fits, b"xy", 4, &mut cut);
    assert_eq!(fits, b"xy".to_vec());
    assert!(!cut);
}
