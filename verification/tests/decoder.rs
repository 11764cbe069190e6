use nce_qualifiers::errors::ParseErrorType;
use nce_qualifiers::parser::{parse_line, Qualifiers};

const FULL_LINE: &str = "Smith\tJohn\t0000001\t001\t7:30 AM\t1\t0001\tUniversity of the Philippines Diliman\tKalaw Corner, Quirino Street, UP Diliman, Quezon City, Metro Manila";

const MIDDLE_LINE: &str = "Smith\tJohn\tCruz\t0000001\t001\t7:30 AM\t1\t0001\tUniversity of the Philippines Diliman\tKalaw Corner, Quirino Street, UP Diliman, Quezon City, Metro Manila";

fn expect_error(line: &str, lineno: u32, kind: ParseErrorType) {
    match parse_line(line, lineno) {
        Ok(q) => panic!("expected {:?}, decoded {:?}", kind, q),
        Err(e) => {
            assert_eq!(*e.error_type(), kind);
            assert_eq!(e.line(), Some(lineno));
        }
    }
}

#[test]
fn full_line_minimum_fields() {
    let q = parse_line(FULL_LINE, 1).expect("a full line must decode");
    assert_eq!(q.id, 1);
    assert_eq!(q.surname, "Smith");
    assert_eq!(q.first_name, "John");
    assert_eq!(q.middle_name, None);
    assert_eq!(q.seat_number, 1);
    assert_eq!(q.time, "7:30 AM");
    assert_eq!(q.room_assignment, 1);
    assert_eq!(q.test_center_code, 1);
    assert_eq!(q.test_center_name, "University of the Philippines Diliman");
    assert_eq!(
        q.test_center_addr,
        "Kalaw Corner, Quirino Street, UP Diliman, Quezon City, Metro Manila"
    );
}

#[test]
fn middle_name_shifts_the_id() {
    let q = parse_line(MIDDLE_LINE, 1).expect("a line with a middle name must decode");
    assert_eq!(q.middle_name, Some(String::from("Cruz")));
    assert_eq!(q.id, 1);
    assert_eq!(q.surname, "Smith");
    assert_eq!(q.first_name, "John");
    assert_eq!(q.seat_number, 1);
    assert_eq!(q.room_assignment, 1);
    assert_eq!(q.test_center_code, 1);
}

#[test]
fn empty_middle_field_stays_none() {
    let line = "Smith\tJohn\t\t0000001\t001\t7:30 AM\t1\t0001\tCenter\tAddr";
    let q = parse_line(line, 1).expect("an empty middle field must decode");
    assert_eq!(q.middle_name, None);
    assert_eq!(q.id, 1);
}

#[test]
fn missing_fields_report_the_first_absent_one() {
    expect_error("Smith", 1, ParseErrorType::MissingFirstName);
    expect_error("Smith\tJohn", 4, ParseErrorType::MissingApplicationId);
    expect_error("Smith\tJohn\tCruz", 1, ParseErrorType::MissingApplicationId);
    expect_error("Smith\tJohn\t0000001", 1, ParseErrorType::MissingSeatNumber);
    expect_error("Smith\tJohn\t0000001\t001", 1, ParseErrorType::MissingTime);
    expect_error(
        "Smith\tJohn\t0000001\t001\t7:30 AM",
        1,
        ParseErrorType::MissingRoomAssignment,
    );
    expect_error(
        "Smith\tJohn\t0000001\t001\t7:30 AM\t1",
        1,
        ParseErrorType::MissingTestCenterCode,
    );
    expect_error(
        "Smith\tJohn\t0000001\t001\t7:30 AM\t1\t0001",
        1,
        ParseErrorType::MissingTestCenterName,
    );
    expect_error(
        "Smith\tJohn\t0000001\t001\t7:30 AM\t1\t0001\tCenter",
        1,
        ParseErrorType::MissingTestCenterAddr,
    );
}

#[test]
fn missing_application_id_at_its_own_line() {
    expect_error("Smith\tJohn", 7, ParseErrorType::MissingApplicationId);
}

#[test]
fn invalid_fields_report_the_matching_kind() {
    // Two digits in the seat-number position instead of three.
    expect_error(
        "Smith\tJohn\t0000001\t12\t7:30 AM\t1\t0001\tCenter\tAddr",
        1,
        ParseErrorType::InvalidSeatNumber,
    );
    // Four digits.
    expect_error(
        "Smith\tJohn\t0000001\t0001\t7:30 AM\t1\t0001\tCenter\tAddr",
        1,
        ParseErrorType::InvalidSeatNumber,
    );
    // A letter among the digits.
    expect_error(
        "Smith\tJohn\t0000001\t0a1\t7:30 AM\t1\t0001\tCenter\tAddr",
        1,
        ParseErrorType::InvalidSeatNumber,
    );
    // A middle name followed by something that is not a 7-digit id.
    expect_error(
        "Smith\tJohn\tCruz\t123\t001\t7:30 AM\t1\t0001\tCenter\tAddr",
        1,
        ParseErrorType::InvalidApplicationId,
    );
    // Three digits in the room position.
    expect_error(
        "Smith\tJohn\t0000001\t001\t7:30 AM\t123\t0001\tCenter\tAddr",
        1,
        ParseErrorType::InvalidRoomAssignment,
    );
    // Zero digits in the room position.
    expect_error(
        "Smith\tJohn\t0000001\t001\t7:30 AM\t\t0001\tCenter\tAddr",
        1,
        ParseErrorType::InvalidRoomAssignment,
    );
    // Five digits in the test-center-code position.
    expect_error(
        "Smith\tJohn\t0000001\t001\t7:30 AM\t1\t00001\tCenter\tAddr",
        1,
        ParseErrorType::InvalidTestCenterCode,
    );
}

#[test]
fn two_digit_room_assignment_is_accepted() {
    let line = "Smith\tJohn\t0000001\t001\t7:30 AM\t42\t0001\tCenter\tAddr";
    let q = parse_line(line, 1).expect("a two-digit room must decode");
    assert_eq!(q.room_assignment, 42);
}

#[test]
fn numeric_fields_carry_their_decimal_value() {
    let line = "Smith\tJohn\t1234567\t905\t8:00 AM\t07\t6100\tCenter\tAddr";
    let q = parse_line(line, 1).expect("decodes");
    assert_eq!(q.id, 1234567);
    assert_eq!(q.seat_number, 905);
    assert_eq!(q.room_assignment, 7);
    assert_eq!(q.test_center_code, 6100);
}

#[test]
fn names_are_title_cased() {
    let line = "dELA cRUZ\tjOHN pAUL\tsANTOS\t0000001\t001\t7:30 AM\t1\t0001\tCenter\tAddr";
    let q = parse_line(line, 1).expect("decodes");
    assert_eq!(q.surname, "Dela Cruz");
    assert_eq!(q.first_name, "John Paul");
    assert_eq!(q.middle_name, Some(String::from("Santos")));
}

#[test]
fn surrounding_whitespace_is_trimmed() {
    let padded = format!("  {}\t\r ", FULL_LINE);
    let q = parse_line(&padded, 1).expect("a padded line must decode");
    assert_eq!(q.id, 1);
    assert_eq!(q.surname, "Smith");
    assert_eq!(
        q.test_center_addr,
        "Kalaw Corner, Quirino Street, UP Diliman, Quezon City, Metro Manila"
    );
}

#[test]
fn leading_tab_is_trimmed_away() {
    // The outer trim eats a leading tab, so every field slides one
    // position left instead of leaving an empty surname.
    let line = "\tJohn\t0000001\t001\t7:30 AM\t1\t0001\tCenter\tAddr";
    match parse_line(line, 1) {
        Err(e) => assert_eq!(*e.error_type(), ParseErrorType::InvalidApplicationId),
        Ok(q) => panic!("the shifted fields must not decode, got {:?}", q),
    }
}

#[test]
fn leftover_trailing_tab_is_trimmed_away() {
    let line = format!("{}\t", FULL_LINE);
    let q = parse_line(&line, 1).expect("a line with a leftover tab must decode");
    assert_eq!(
        q.test_center_addr,
        "Kalaw Corner, Quirino Street, UP Diliman, Quezon City, Metro Manila"
    );
}

#[test]
fn middle_name_shifts_the_missing_field_too() {
    expect_error(
        "Smith\tJohn\tCruz\t0000001\t001\t7:30 AM\t1\t0001\tCenter",
        1,
        ParseErrorType::MissingTestCenterAddr,
    );
}

#[test]
fn fields_beyond_the_schema_are_ignored() {
    let line = "Smith\tJohn\t0000001\t001\t7:30 AM\t1\t0001\tCenter\tAddr\textra\tmore";
    let q = parse_line(line, 1).expect("extra fields must not hurt");
    assert_eq!(q.test_center_name, "Center");
    assert_eq!(q.test_center_addr, "Addr");
}

#[test]
fn iterator_counts_lines_through_mixed_outcomes() {
    let text = format!("{}\nbad line\n{}\nanother\tbad", FULL_LINE, MIDDLE_LINE);
    let mut it = Qualifiers::from_str(&text);
    assert!(it.next().unwrap().is_ok());
    match it.next().unwrap() {
        Err(e) => assert_eq!(e.line(), Some(2)),
        Ok(q) => panic!("line 2 must fail, decoded {:?}", q),
    }
    assert!(it.next().unwrap().is_ok());
    match it.next().unwrap() {
        Err(e) => {
            assert_eq!(e.line(), Some(4));
            assert_eq!(*e.error_type(), ParseErrorType::MissingApplicationId);
        }
        Ok(q) => panic!("line 4 must fail, decoded {:?}", q),
    }
    assert!(it.next().is_none());
}

#[test]
fn every_failing_line_carries_its_own_number() {
    let text = "a\nb\nc";
    let mut it = Qualifiers::from_str(text);
    for expected in 1..=3u32 {
        match it.next().unwrap() {
            Err(e) => assert_eq!(e.line(), Some(expected)),
            Ok(q) => panic!("single-field lines must fail, decoded {:?}", q),
        }
    }
    assert!(it.next().is_none());
}

#[test]
fn crlf_and_lf_lines_decode_identically() {
    let lf = format!("{}\n{}\n", FULL_LINE, MIDDLE_LINE);
    let crlf = format!("{}\r\n{}\r\n", FULL_LINE, MIDDLE_LINE);
    let mut a = Qualifiers::from_str(&lf);
    let mut b = Qualifiers::from_str(&crlf);
    for _ in 0..2 {
        let qa = a.next().unwrap().expect("decodes");
        let qb = b.next().unwrap().expect("decodes");
        assert_eq!(format!("{:?}", qa), format!("{:?}", qb));
    }
    assert!(a.next().is_none());
    assert!(b.next().is_none());
}

#[test]
fn final_line_needs_no_terminator() {
    let with = format!("{}\n", FULL_LINE);
    let mut a = Qualifiers::from_str(&with);
    let mut b = Qualifiers::from_str(FULL_LINE);
    let qa = a.next().unwrap().expect("decodes");
    let qb = b.next().unwrap().expect("decodes");
    assert_eq!(format!("{:?}", qa), format!("{:?}", qb));
    assert!(a.next().is_none());
    assert!(b.next().is_none());
}
