use textutils::head::{head_bytes, head_lines, Headers, LineLimit, Mode};
use textutils::reader::Reader;
use textutils::token::diagnostic;

const FIVE_LINES: &[u8] = b"one\ntwo\r\nthree\nfour\nfive\n";

#[test]
fn head_lines_two_of_five() {
    let mut reader = Reader::new(FIVE_LINES);
    let out = head_lines(&mut reader, 2);
    assert_eq!(out, vec![String::from("one\n"), String::from("two\r\n")]);
    assert_eq!(out.concat(), "one\ntwo\r\n");
}

#[test]
fn head_lines_reads_nothing_behind_the_last_line() {
    let mut reader = Reader::new(FIVE_LINES);
    head_lines(&mut reader, 2);
    assert_eq!(reader.remaining_len(), FIVE_LINES.len() - 9);
    assert_eq!(reader.read_line(), (6, String::from("three\n")));
}

#[test]
fn head_lines_emits_min_of_limit_and_total() {
    for n in 0u64..9 {
        let mut reader = Reader::new(FIVE_LINES);
        let out = head_lines(&mut reader, n);
        assert_eq!(out.len() as u64, n.min(5));
        assert!(out.len() as u64 <= n);
    }
    let mut reader = Reader::new(FIVE_LINES);
    assert_eq!(head_lines(&mut reader, u64::MAX).len(), 5);
    assert!(reader.is_at_end());
}

#[test]
fn head_lines_of_empty_stream_is_empty() {
    let mut reader = Reader::new(b"");
    assert_eq!(head_lines(&mut reader, 10), Vec::<String>::new());
}

#[test]
fn head_lines_keeps_unterminated_last_line() {
    let mut reader = Reader::new(b"a\nb");
    assert_eq!(head_lines(&mut reader, 10), vec![String::from("a\n"), String::from("b")]);
}

#[test]
fn head_lines_replaces_invalid_sequences() {
    let mut reader = Reader::new(b"ok\n\xffbad\xc3\nrest\n");
    assert_eq!(
        head_lines(&mut reader, 2),
        vec![String::from("ok\n"), String::from("\u{fffd}bad\u{fffd}\n")]
    );
}

#[test]
fn head_bytes_emits_min_of_limit_and_total() {
    let data: &[u8] = b"hello\nworld\n";
    for n in 0u64..20 {
        let mut reader = Reader::new(data);
        let text = head_bytes(&mut reader, n);
        let expected = (n as usize).min(data.len());
        assert_eq!(text.as_bytes(), &data[..expected]);
        assert_eq!(reader.remaining_len(), data.len() - expected);
    }
}

#[test]
fn head_bytes_may_cut_inside_a_character() {
    let data = "a\u{e9}b".as_bytes();
    let mut reader = Reader::new(data);
    assert_eq!(head_bytes(&mut reader, 2), "a\u{fffd}");
    let mut reader = Reader::new(data);
    assert_eq!(head_bytes(&mut reader, 3), "a\u{e9}");
    let mut reader = Reader::new(b"\xff\xfe\xfd");
    assert_eq!(head_bytes(&mut reader, 2), "\u{fffd}\u{fffd}");
}

#[test]
fn header_names_each_of_several_inputs() {
    let mut headers = Headers::new(3);
    assert!(!headers.printed);
    assert_eq!(headers.next_header("file1"), Some(String::from("==> file1 <==\n")));
    assert!(headers.printed);
    assert_eq!(headers.next_header("file2"), Some(String::from("\n==> file2 <==\n")));
    assert_eq!(headers.next_header("-"), Some(String::from("\n==> - <==\n")));
    assert_eq!(headers.num_inputs, 3);
}

#[test]
fn header_is_absent_for_a_single_input() {
    let mut single = Headers::new(1);
    assert_eq!(single.next_header("file1"), None);
    assert!(!single.printed);
    assert_eq!(single.next_header("file1"), None);
    let mut none = Headers::new(0);
    assert_eq!(none.next_header("file1"), None);
}

/// Runs the truncation tool's line mode over inputs held in memory, each
/// either its content or the reason why it could not be opened.
fn run_lines(inputs: &[(&str, Result<&[u8], &str>)], n: u64) -> (String, String) {
    let mut headers = Headers::new(inputs.len());
    let mut out = String::new();
    let mut err = String::new();
    for (token, input) in inputs {
        match input {
            Err(reason) => err.push_str(&diagnostic(token, reason)),
            Ok(content) => {
                if let Some(text) = headers.next_header(token) {
                    out.push_str(&text);
                }
                let mut reader = Reader::new(content);
                for line in head_lines(&mut reader, n) {
                    out.push_str(&line);
                }
            }
        }
    }
    (out, err)
}

#[test]
fn two_inputs_print_headers_contents_and_a_blank_line_between() {
    let (out, err) = run_lines(&[("file1", Ok(b"a\nb\n")), ("file2", Ok(b"c\n"))], 10);
    assert_eq!(out, "==> file1 <==\na\nb\n\n==> file2 <==\nc\n");
    assert_eq!(err, "");
}

#[test]
fn first_header_printed_has_no_blank_line_when_an_earlier_input_is_missing() {
    let (out, err) = run_lines(
        &[("m", Err("No such file or directory (os error 2)")), ("p", Ok(b"one\ntwo\n"))],
        1,
    );
    assert_eq!(err, "m: No such file or directory (os error 2)\n");
    assert_eq!(out, "==> p <==\none\n");
}

#[test]
fn missing_input_between_two_gets_no_header() {
    let (out, err) = run_lines(
        &[("a", Ok(b"1\n")), ("m", Err("denied")), ("b", Ok(b"2\n"))],
        10,
    );
    assert_eq!(err, "m: denied\n");
    assert_eq!(out, "==> a <==\n1\n\n==> b <==\n2\n");
}

#[test]
fn single_input_prints_no_header() {
    let (out, err) = run_lines(&[("only", Ok(b"x\ny\n"))], 10);
    assert_eq!(out, "x\ny\n");
    assert_eq!(err, "");
}

#[test]
fn mode_select_prefers_bytes() {
    assert_eq!(Mode::select(10, None), Mode::Lines(10));
    assert_eq!(Mode::select(10, Some(3)), Mode::Bytes(3));
    assert_eq!(Mode::select(0, Some(0)), Mode::Bytes(0));
}

#[test]
fn line_limit_counts_down_and_stops() {
    let mut limit = LineLimit::new(2);
    assert!(limit.wants_line());
    assert_eq!(limit.feed(b"a\n"), Some(String::from("a\n")));
    assert_eq!(limit.left, 1);
    assert_eq!(limit.feed(b"\xff\n"), Some(String::from("\u{fffd}\n")));
    assert_eq!(limit.left, 0);
    assert!(!limit.wants_line());
    assert_eq!(limit.feed(b"c\n"), None);
    assert_eq!(limit.left, 0);
}

#[test]
fn line_limit_takes_empty_line_as_end() {
    let mut limit = LineLimit::new(3);
    assert_eq!(limit.feed(b""), None);
    assert_eq!(limit.left, 3);
}
