use yes::buffer::{build_buffer, TARGET_CAPACITY};

#[test]
fn unbounded_buffer_fills_capacity() {
    let b = build_buffer(b"y", TARGET_CAPACITY, None);
    assert_eq!(b.repeat_count, 4096);
    assert_eq!(b.bytes.len(), 8192);
    assert_eq!(&b.bytes[0..4], b"y\ny\n");
}

#[test]
fn buffer_never_exceeds_limit() {
    let b = build_buffer(b"hello", TARGET_CAPACITY, Some(3));
    assert_eq!(b.repeat_count, 3);
    assert_eq!(b.bytes, b"hello\nhello\nhello\n".to_vec());
}

#[test]
fn limit_zero_gives_empty_buffer() {
    let b = build_buffer(b"hello", TARGET_CAPACITY, Some(0));
    assert_eq!(b.repeat_count, 0);
    assert!(b.bytes.is_empty());
}

#[test]
fn empty_message_gives_bare_terminators() {
    let b = build_buffer(b"", TARGET_CAPACITY, None);
    assert_eq!(b.repeat_count, 8192);
    assert!(b.bytes.iter().all(|&c| c == b'\n'));
    assert_eq!(b.bytes.len(), 8192);
}

#[test]
fn long_message_still_gets_one_line() {
    let m = vec![b'x'; 10000];
    let b = build_buffer(&m, TARGET_CAPACITY, None);
    assert_eq!(b.repeat_count, 1);
    assert_eq!(b.bytes.len(), 10001);
}

#[test]
fn count_is_capacity_over_line_length() {
    let b = build_buffer(b"abc", 10, Some(100));
    assert_eq!(b.repeat_count, 2);
    assert_eq!(b.bytes, b"abc\nabc\n".to_vec());
}
