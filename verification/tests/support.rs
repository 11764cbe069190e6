use nce_qualifiers::casing::title_case;
use nce_qualifiers::errors::{ParseError, ParseErrorType};
use nce_qualifiers::fields::{digits_to_u32, matches_digits};
use nce_qualifiers::lines::{strip_terminator, LineReader, StrLines};
use nce_qualifiers::parser::{line_capacity, Qualifiers};
use nce_qualifiers::text::{split_str, trim_str};
use nce_qualifiers::types::Examinee;

#[test]
fn title_case_capitalizes_each_word() {
    assert_eq!(title_case("jUAN dELA cRUZ"), "Juan Dela Cruz");
    assert_eq!(title_case("o'brien"), "O'brien");
    assert_eq!(title_case(""), "");
    assert_eq!(title_case("  x"), "  X");
    assert_eq!(title_case("a b"), "A B");
}

#[test]
fn title_case_is_idempotent_on_its_own_output() {
    let once = title_case("jUAN dELA cRUZ");
    assert_eq!(title_case(&once), once);
    let again = title_case("7:30 am mIxEd");
    assert_eq!(title_case(&again), again);
}

#[test]
fn title_case_leaves_non_ascii_letters_alone() {
    // The known limitation: letters outside ASCII are not case-converted.
    assert_eq!(title_case("ñino"), "ñino");
}

#[test]
fn digit_patterns_check_length_and_content() {
    assert!(matches_digits("0000001", 7, 7));
    assert!(!matches_digits("000001", 7, 7));
    assert!(!matches_digits("00000012", 7, 7));
    assert!(!matches_digits("00a0001", 7, 7));
    assert!(matches_digits("1", 1, 2));
    assert!(matches_digits("12", 1, 2));
    assert!(!matches_digits("", 1, 2));
    assert!(!matches_digits("123", 1, 2));
}

#[test]
fn digit_runs_convert_to_their_value() {
    assert_eq!(digits_to_u32("0000001"), 1);
    assert_eq!(digits_to_u32("9999999"), 9999999);
    assert_eq!(digits_to_u32("0042"), 42);
    assert_eq!(digits_to_u32("0"), 0);
}

#[test]
fn split_keeps_empty_pieces() {
    assert_eq!(split_str("a\t\tb", '\t'), vec!["a", "", "b"]);
    assert_eq!(split_str("", '\t'), vec![""]);
    assert_eq!(split_str("\t", '\t'), vec!["", ""]);
    assert_eq!(split_str("abc", '\t'), vec!["abc"]);
}

#[test]
fn trim_removes_surrounding_whitespace() {
    assert_eq!(trim_str(" \t x y \r\n"), "x y");
    assert_eq!(trim_str(""), "");
    assert_eq!(trim_str(" \t "), "");
    assert_eq!(trim_str("x"), "x");
    // Unicode whitespace: no-break space, ideographic space, em space.
    assert_eq!(trim_str("\u{a0}x\u{3000}"), "x");
    assert_eq!(trim_str("\u{2003}\u{85}x"), "x");
    assert_eq!(trim_str("a\u{a0}b"), "a\u{a0}b");
}

#[test]
fn str_lines_walks_every_terminator_form() {
    let mut src = StrLines::new("a\nb\r\nc");
    assert_eq!(src.next_line().unwrap().unwrap(), "a");
    assert_eq!(src.next_line().unwrap().unwrap(), "b");
    assert_eq!(src.next_line().unwrap().unwrap(), "c");
    assert!(src.next_line().is_none());

    let mut empty = StrLines::new("");
    assert!(empty.next_line().is_none());

    let mut terminated = StrLines::new("only\n");
    assert_eq!(terminated.next_line().unwrap().unwrap(), "only");
    assert!(terminated.next_line().is_none());

    let mut blank = StrLines::new("\n\n");
    assert_eq!(blank.next_line().unwrap().unwrap(), "");
    assert_eq!(blank.next_line().unwrap().unwrap(), "");
    assert!(blank.next_line().is_none());
}

#[test]
fn terminator_stripping_matches_the_stream_rule() {
    assert_eq!(strip_terminator(String::from("abc\n")), "abc");
    assert_eq!(strip_terminator(String::from("abc\r\n")), "abc");
    assert_eq!(strip_terminator(String::from("abc")), "abc");
    assert_eq!(strip_terminator(String::from("abc\r")), "abc\r");
    assert_eq!(strip_terminator(String::from("\n")), "");
    assert_eq!(strip_terminator(String::from("")), "");
}

#[test]
fn line_capacity_saturates_at_the_maximum() {
    assert_eq!(line_capacity(1).unwrap(), 1);
    assert_eq!(line_capacity(u32::MAX - 1).unwrap(), u32::MAX - 1);
    let e = line_capacity(u32::MAX).unwrap_err();
    assert_eq!(*e.error_type(), ParseErrorType::TooBig);
    assert_eq!(e.line(), Some(u32::MAX));
}

#[test]
fn kind_messages_are_exact() {
    assert_eq!(ParseErrorType::IO.message(), "I/O error occurred");
    assert_eq!(ParseErrorType::TooBig.message(), "data is too big to handle");
    assert_eq!(ParseErrorType::MissingSurname.message(), "missing surname data");
    assert_eq!(ParseErrorType::InvalidSeatNumber.message(), "invalid seat number");
    assert_eq!(
        ParseErrorType::MissingTestCenterAddr.message(),
        "missing test center addr"
    );
}

#[test]
fn error_messages_append_the_line_number() {
    let e = ParseError::new(ParseErrorType::InvalidSeatNumber, Some(12));
    assert_eq!(e.message(), "invalid seat number at line 12");
    let e = ParseError::new(ParseErrorType::IO, None);
    assert_eq!(e.message(), "I/O error occurred");
    let e = ParseError::new(ParseErrorType::TooBig, Some(4294967295));
    assert_eq!(e.message(), "data is too big to handle at line 4294967295");
    let e = ParseError::new(ParseErrorType::MissingTime, Some(1050));
    assert_eq!(e.message(), "missing time at line 1050");
}

#[test]
fn io_cause_is_carried_for_diagnostics() {
    let e = ParseError::with_cause(
        ParseErrorType::IO,
        None,
        String::from("unexpected end of file"),
    );
    assert_eq!(*e.error_type(), ParseErrorType::IO);
    assert_eq!(e.line(), None);
    assert_eq!(e.cause().as_deref(), Some("unexpected end of file"));
    assert_eq!(e.message(), "I/O error occurred");

    let plain = ParseError::new(ParseErrorType::MissingTime, Some(2));
    assert!(plain.cause().is_none());
}

struct FailingReader {
    failed: bool,
}

impl LineReader for FailingReader {
    fn next_line(&mut self) -> Option<Result<String, ParseError>> {
        if self.failed {
            None
        } else {
            self.failed = true;
            Some(Err(ParseError::with_cause(
                ParseErrorType::IO,
                None,
                String::from("connection reset"),
            )))
        }
    }
}

#[test]
fn reader_failures_surface_as_io_errors() {
    let mut it = Qualifiers::from_line_reader(FailingReader { failed: false });
    match it.next().unwrap() {
        Err(e) => {
            assert_eq!(*e.error_type(), ParseErrorType::IO);
            assert_eq!(e.line(), None);
            assert_eq!(e.cause().as_deref(), Some("connection reset"));
        }
        Ok(q) => panic!("a failing reader must not decode, got {:?}", q),
    }
    assert!(it.next().is_none());
}

#[test]
fn examinee_widens_the_record_fields() {
    let e = Examinee {
        id: 1234567,
        surname: String::from("Smith"),
        first_name: String::from("John"),
        middle_name: None,
        seat_number: 905,
        time: String::from("7:30 AM"),
        room_assignment: 7,
        test_center_code: 6100,
    };
    assert_eq!(e.id, 1234567);
    assert_eq!(e.seat_number, 905);
}
