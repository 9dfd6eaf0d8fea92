use textutils::reader::Reader;

#[test]
fn read_line_keeps_terminators() {
    let mut reader = Reader::new(b"one\r\ntwo\nthree");
    assert_eq!(reader.read_line(), (5, String::from("one\r\n")));
    assert_eq!(reader.read_line(), (4, String::from("two\n")));
    assert_eq!(reader.read_line(), (5, String::from("three")));
    assert_eq!(reader.read_line(), (0, String::new()));
    assert_eq!(reader.read_line(), (0, String::new()));
}

#[test]
fn read_line_returns_zero_exactly_at_end() {
    let mut reader = Reader::new(b"\n\n");
    assert!(!reader.is_at_end());
    assert_eq!(reader.read_line().0, 1);
    assert!(!reader.is_at_end());
    assert_eq!(reader.read_line().0, 1);
    assert!(reader.is_at_end());
    assert_eq!(reader.read_line().0, 0);
    let mut empty = Reader::new(b"");
    assert!(empty.is_at_end());
    assert_eq!(empty.read_line(), (0, String::new()));
}

#[test]
fn read_line_counts_raw_bytes_and_decodes_lossily() {
    let mut reader = Reader::new(b"caf\xc3\xa9 \xff\xfe\n");
    let (bytes_read, line) = reader.read_line();
    assert_eq!(bytes_read, 9);
    assert_eq!(line, "caf\u{e9} \u{fffd}\u{fffd}\n");
    assert_eq!(line.chars().count(), 8);
}

#[test]
fn next_line_hands_out_the_raw_line() {
    let data: &[u8] = b"a\xffb\nrest";
    let mut reader = Reader::new(data);
    assert_eq!(reader.next_line(), &data[..4]);
    assert_eq!(reader.next_line(), &data[4..]);
    assert_eq!(reader.next_line(), b"");
}

#[test]
fn lines_read_add_up_to_the_stream() {
    let data: &[u8] = b"first\n\nthird line\r\nlast without end";
    let mut reader = Reader::new(data);
    let mut read: Vec<u8> = Vec::new();
    let mut lines = 0;
    loop {
        let line = reader.next_line();
        if line.is_empty() {
            break;
        }
        lines += 1;
        read.extend_from_slice(line);
        assert_eq!(reader.remaining_len(), data.len() - read.len());
    }
    assert_eq!(lines, 4);
    assert_eq!(read, data);
}

#[test]
fn read_bytes_stops_at_limit_or_end() {
    let data: &[u8] = b"0123456789";
    let mut reader = Reader::new(data);
    assert_eq!(reader.read_bytes(4), b"0123");
    assert_eq!(reader.remaining_len(), 6);
    assert_eq!(reader.read_bytes(0), b"");
    assert_eq!(reader.read_bytes(100), b"456789");
    assert!(reader.is_at_end());
    assert_eq!(reader.read_bytes(3), b"");
    let mut whole = Reader::new(data);
    assert_eq!(whole.read_bytes(u64::MAX), data);
    let mut exact = Reader::new(data);
    assert_eq!(exact.read_bytes(10), data);
}

#[test]
fn read_bytes_ignores_line_boundaries() {
    let mut reader = Reader::new(b"ab\ncd\nef");
    assert_eq!(reader.read_bytes(4), b"ab\nc");
    assert_eq!(reader.read_line(), (2, String::from("d\n")));
}
