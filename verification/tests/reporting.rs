use textutils::count::{count, CountError, FileInfo};
use textutils::reader::Reader;
use textutils::token::{diagnostic, is_stdin};
use textutils::wc::{format_counts, format_file_line, format_total_line, RequestedFields, Tally};

const STANDARD: RequestedFields = RequestedFields {
    lines: true,
    words: true,
    bytes: true,
    chars: false,
};

fn info(lines: usize, words: usize, chars: usize, bytes: usize) -> FileInfo {
    FileInfo {
        num_lines: lines,
        num_words: words,
        num_chars: chars,
        num_bytes: bytes,
    }
}

#[test]
fn effective_fields_default_to_lines_words_bytes() {
    let none = RequestedFields {
        lines: false,
        words: false,
        bytes: false,
        chars: false,
    };
    assert_eq!(none.effective(), STANDARD);
}

#[test]
fn effective_fields_keep_what_was_asked() {
    for bits in 1u8..16 {
        let fields = RequestedFields {
            lines: bits & 1 != 0,
            words: bits & 2 != 0,
            bytes: bits & 4 != 0,
            chars: bits & 8 != 0,
        };
        assert_eq!(fields.effective(), fields);
    }
}

#[test]
fn format_counts_orders_lines_words_bytes_chars() {
    let all = RequestedFields {
        lines: true,
        words: true,
        bytes: true,
        chars: true,
    };
    assert_eq!(
        format_counts(&info(1, 22, 333, 4444), &all),
        "       1      22    4444     333"
    );
    assert_eq!(
        format_counts(&info(1, 22, 333, 4444), &STANDARD),
        "       1      22    4444"
    );
    let chars_only = RequestedFields {
        lines: false,
        words: false,
        bytes: false,
        chars: true,
    };
    assert_eq!(format_counts(&info(1, 22, 333, 4444), &chars_only), "     333");
    let none = RequestedFields {
        lines: false,
        words: false,
        bytes: false,
        chars: false,
    };
    assert_eq!(format_counts(&info(1, 22, 333, 4444), &none), "");
}

#[test]
fn file_line_names_the_input() {
    assert_eq!(
        format_file_line(&info(1, 10, 48, 48), &STANDARD, "tests/inputs/fox.txt"),
        "       1      10      48 tests/inputs/fox.txt\n"
    );
}

#[test]
fn file_line_omits_standard_input() {
    assert_eq!(
        format_file_line(&info(1, 10, 48, 48), &STANDARD, "-"),
        "       1      10      48\n"
    );
    assert_eq!(
        format_file_line(&info(1, 10, 48, 48), &STANDARD, "--"),
        "       1      10      48 --\n"
    );
}

#[test]
fn total_line_ends_with_total() {
    assert_eq!(
        format_total_line(&info(5, 6, 7, 8), &STANDARD),
        "       5       6       8 total\n"
    );
}

#[test]
fn is_stdin_is_the_single_hyphen() {
    assert!(is_stdin("-"));
    assert!(!is_stdin(""));
    assert!(!is_stdin("--"));
    assert!(!is_stdin("a"));
    assert!(!is_stdin("-a"));
    assert!(!is_stdin("\u{2010}"));
}

#[test]
fn diagnostic_names_token_and_reason() {
    assert_eq!(
        diagnostic("missing.txt", "No such file or directory (os error 2)"),
        "missing.txt: No such file or directory (os error 2)\n"
    );
}

#[test]
fn missing_file_is_reported_and_left_out_of_totals() {
    let inputs: Vec<(&str, Result<&[u8], &str>)> = vec![
        ("present.txt", Ok(b"one two\nthree\n")),
        ("missing.txt", Err("No such file or directory (os error 2)")),
    ];
    let mut tally = Tally::new(STANDARD, inputs.len());
    let mut out = String::new();
    let mut err = String::new();
    for (token, input) in inputs {
        match input {
            Ok(content) => {
                let info = count(Reader::new(content)).unwrap();
                out.push_str(&tally.record(token, &info).unwrap());
            }
            Err(reason) => err.push_str(&diagnostic(token, reason)),
        }
    }
    if let Some(line) = tally.total_line() {
        out.push_str(&line);
    }
    assert_eq!(err, "missing.txt: No such file or directory (os error 2)\n");
    assert_eq!(
        out,
        "       2       3      14 present.txt\n       2       3      14 total\n"
    );
    assert_eq!(tally.totals, info(2, 3, 14, 14));
}

#[test]
fn tally_adds_up_in_order() {
    let mut tally = Tally::new(STANDARD, 3);
    assert_eq!(tally.totals, FileInfo::zero());
    assert_eq!(
        tally.record("a", &info(1, 2, 3, 4)),
        Ok(String::from("       1       2       4 a\n"))
    );
    assert_eq!(
        tally.record("-", &info(10, 20, 30, 40)),
        Ok(String::from("      10      20      40\n"))
    );
    assert_eq!(tally.totals, info(11, 22, 33, 44));
    assert_eq!(
        tally.total_line(),
        Some(String::from("      11      22      44 total\n"))
    );
}

#[test]
fn tally_prints_no_total_for_one_input() {
    let mut tally = Tally::new(STANDARD, 1);
    assert!(tally.record("a", &info(1, 2, 3, 4)).is_ok());
    assert_eq!(tally.total_line(), None);
    assert_eq!(Tally::new(STANDARD, 0).total_line(), None);
    assert!(Tally::new(STANDARD, 2).total_line().is_some());
}

#[test]
fn tally_keeps_totals_on_overflow() {
    let mut tally = Tally::new(STANDARD, 2);
    assert!(tally.record("a", &info(1, 1, 1, usize::MAX)).is_ok());
    assert_eq!(tally.record("b", &info(1, 1, 1, 1)), Err(CountError::Overflow));
    assert_eq!(tally.totals, info(1, 1, 1, usize::MAX));
}
