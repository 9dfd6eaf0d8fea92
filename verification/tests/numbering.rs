use textutils::cat::{LineNumberer, Numbering, NUMBER_WIDTH};
use textutils::count::CountError;
use textutils::echo::echo;

#[test]
fn numbering_select_prefers_all_lines() {
    assert_eq!(Numbering::select(false, false), Numbering::Off);
    assert_eq!(Numbering::select(true, false), Numbering::All);
    assert_eq!(Numbering::select(false, true), Numbering::NonBlank);
    assert_eq!(Numbering::select(true, true), Numbering::All);
}

#[test]
fn lines_pass_through_without_numbering() {
    let mut numberer = LineNumberer::new(Numbering::Off);
    assert_eq!(numberer.emit("first"), Ok(String::from("first\n")));
    assert_eq!(numberer.emit(""), Ok(String::from("\n")));
    assert_eq!(numberer.last, 0);
}

#[test]
fn every_line_is_numbered() {
    assert_eq!(NUMBER_WIDTH, 6);
    let mut numberer = LineNumberer::new(Numbering::All);
    assert_eq!(numberer.emit("first"), Ok(String::from("     1\tfirst\n")));
    assert_eq!(numberer.emit(""), Ok(String::from("     2\t\n")));
    assert_eq!(numberer.emit("third"), Ok(String::from("     3\tthird\n")));
    assert_eq!(numberer.last, 3);
}

#[test]
fn blank_lines_are_not_numbered() {
    let mut numberer = LineNumberer::new(Numbering::NonBlank);
    assert_eq!(numberer.emit("first"), Ok(String::from("     1\tfirst\n")));
    assert_eq!(numberer.emit(""), Ok(String::from("\n")));
    assert_eq!(numberer.emit(" "), Ok(String::from("     2\t \n")));
    assert_eq!(numberer.last, 2);
}

#[test]
fn line_numbers_grow_past_the_width() {
    let mut numberer = LineNumberer { mode: Numbering::All, last: 999_999 };
    assert_eq!(numberer.emit("x"), Ok(String::from("1000000\tx\n")));
}

#[test]
fn line_numbers_stop_at_the_largest() {
    let mut numberer = LineNumberer { mode: Numbering::All, last: usize::MAX };
    assert_eq!(numberer.emit("x"), Err(CountError::Overflow));
    assert_eq!(numberer.last, usize::MAX);
    let mut blank = LineNumberer { mode: Numbering::NonBlank, last: usize::MAX };
    assert_eq!(blank.emit(""), Ok(String::from("\n")));
}

#[test]
fn echo_joins_with_spaces() {
    let words = vec![String::from("Hello"), String::from("there"), String::from("world")];
    assert_eq!(echo(&words, false), "Hello there world\n");
    assert_eq!(echo(&words, true), "Hello there world");
}

#[test]
fn echo_of_one_or_no_word() {
    assert_eq!(echo(&vec![String::from("a  b")], false), "a  b\n");
    assert_eq!(echo(&vec![String::new(), String::new()], true), " ");
    assert_eq!(echo(&Vec::new(), false), "\n");
    assert_eq!(echo(&Vec::new(), true), "");
}
