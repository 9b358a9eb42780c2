use gcode_link::framing::{keep_byte, LineBuffer};

#[test]
fn two_lines_in_one_read() {
    // Raw input "A1\nB2\n" delivered in one read yields exactly two lines,
    // "A1" and "B2", neither containing the terminator byte.
    let mut buf = LineBuffer::new();
    let lines = buf.push_bytes(b"A1\nB2\n");
    assert_eq!(lines.len(), 2);
    assert_eq!(lines[0], b"A1".to_vec());
    assert_eq!(lines[1], b"B2".to_vec());
}

#[test]
fn disallowed_byte_is_stripped() {
    // Raw input "A\x071\n" (a bell byte interleaved) emits the line "A1":
    // the disallowed byte is silently dropped, not an error.
    let mut buf = LineBuffer::new();
    let lines = buf.push_bytes(b"A\x071\n");
    assert_eq!(lines.len(), 1);
    assert_eq!(lines[0], b"A1".to_vec());
}

#[test]
fn line_split_across_reads() {
    // A line may arrive in several reads; the accumulator carries the
    // unfinished tail over to the next chunk.
    let mut buf = LineBuffer::new();
    let first = buf.push_bytes(b"A1\nB");
    assert_eq!(first.len(), 1);
    assert_eq!(first[0], b"A1".to_vec());
    let second = buf.push_bytes(b"2\n");
    assert_eq!(second.len(), 1);
    assert_eq!(second[0], b"B2".to_vec());
}

#[test]
fn empty_read_emits_nothing() {
    let mut buf = LineBuffer::new();
    let lines = buf.push_bytes(b"");
    assert_eq!(lines.len(), 0);
}

#[test]
fn lone_terminator_emits_empty_line() {
    let mut buf = LineBuffer::new();
    let lines = buf.push_bytes(b"\n");
    assert_eq!(lines.len(), 1);
    assert_eq!(lines[0], Vec::<u8>::new());
}

#[test]
fn nul_bytes_are_dropped() {
    // A read buffer padded with NUL bytes contributes nothing to the line.
    let mut buf = LineBuffer::new();
    let lines = buf.push_bytes(b"ok\x00\x00\n");
    assert_eq!(lines.len(), 1);
    assert_eq!(lines[0], b"ok".to_vec());
}

#[test]
fn kept_byte_classification() {
    assert!(keep_byte(b'a'));
    assert!(keep_byte(b'Z'));
    assert!(keep_byte(b'0'));
    assert!(keep_byte(b'!'));
    assert!(keep_byte(b'~'));
    assert!(keep_byte(b' '));
    assert!(keep_byte(b'\t'));
    assert!(keep_byte(b'\r'));
    assert!(!keep_byte(0x00));
    assert!(!keep_byte(0x07));
    assert!(!keep_byte(0x1b));
    assert!(!keep_byte(0x7f));
    assert!(!keep_byte(0x80));
    assert!(!keep_byte(0xff));
}
