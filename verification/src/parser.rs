//! The record decoder and the lazy record sequence.
//!
//! One line is trimmed, split at tabs, and decoded field by field in
//! schema order: surname, first name, an optional middle name
//! disambiguated against the application-id pattern, then the
//! pattern-checked numeric fields and the free-form test-center fields.
//! The whole decoder is specified by `decode_line`, a function from the
//! line's characters to a record model or an error kind.

use vstd::prelude::*;

use crate::casing::{title_case, title_case_spec};
use crate::errors::{ParseError, ParseErrorType};
use crate::fields::{
    digits_to_u32, digits_value, is_application_id, is_room_assignment, is_seat_number,
    is_test_center_code, matches_digits,
};
use crate::lines::LineReader;
use crate::lines::StrLines;
use crate::text::{split_at, split_str, trim, trim_str};
use crate::types::{QualifierModel, RawQualifier};

verus! {

/// The middle-name rule for the field standing before the application
/// id: an empty field is no middle name, any other is one, title-cased.
pub open spec fn middle_name_of(f: Seq<char>) -> Option<Seq<char>> {
    if f.len() == 0 {
        None
    } else {
        Some(title_case_spec(f))
    }
}

/// Decode the fields that follow the application id, which stands just
/// before position `b`.
pub open spec fn decode_tail(
    fs: Seq<Seq<char>>,
    b: int,
    surname: Seq<char>,
    first_name: Seq<char>,
    middle_name: Option<Seq<char>>,
    id: nat,
) -> Result<QualifierModel, ParseErrorType>
    recommends
        3 <= b <= fs.len(),
{
    if fs.len() <= b {
        Err(ParseErrorType::MissingSeatNumber)
    } else if !is_seat_number(fs[b]) {
        Err(ParseErrorType::InvalidSeatNumber)
    } else if fs.len() <= b + 1 {
        Err(ParseErrorType::MissingTime)
    } else if fs.len() <= b + 2 {
        Err(ParseErrorType::MissingRoomAssignment)
    } else if !is_room_assignment(fs[b + 2]) {
        Err(ParseErrorType::InvalidRoomAssignment)
    } else if fs.len() <= b + 3 {
        Err(ParseErrorType::MissingTestCenterCode)
    } else if !is_test_center_code(fs[b + 3]) {
        Err(ParseErrorType::InvalidTestCenterCode)
    } else if fs.len() <= b + 4 {
        Err(ParseErrorType::MissingTestCenterName)
    } else if fs.len() <= b + 5 {
        Err(ParseErrorType::MissingTestCenterAddr)
    } else {
        Ok(
            QualifierModel {
                id,
                surname: title_case_spec(surname),
                first_name: title_case_spec(first_name),
                middle_name,
                seat_number: digits_value(fs[b]),
                time: fs[b + 1],
                room_assignment: digits_value(fs[b + 2]),
                test_center_code: digits_value(fs[b + 3]),
                test_center_name: fs[b + 4],
                test_center_addr: fs[b + 5],
            },
        )
    }
}

/// Decode one line's tab-split fields. The first field is the surname
/// (a tab split always has one piece, so a surname is never absent),
/// the second the first name; the third is the application id if it
/// matches the 7-digit pattern, and otherwise the middle name, with the
/// id required in the fourth.
pub open spec fn decode_fields(fs: Seq<Seq<char>>) -> Result<QualifierModel, ParseErrorType>
    recommends
        fs.len() >= 1,
{
    if fs.len() < 2 {
        Err(ParseErrorType::MissingFirstName)
    } else if fs.len() < 3 {
        Err(ParseErrorType::MissingApplicationId)
    } else if is_application_id(fs[2]) {
        decode_tail(fs, 3, fs[0], fs[1], None, digits_value(fs[2]))
    } else if fs.len() < 4 {
        Err(ParseErrorType::MissingApplicationId)
    } else if !is_application_id(fs[3]) {
        Err(ParseErrorType::InvalidApplicationId)
    } else {
        decode_tail(fs, 4, fs[0], fs[1], middle_name_of(fs[2]), digits_value(fs[3]))
    }
}

/// Decode one raw line: trim surrounding whitespace, split at tabs,
/// decode the fields.
pub open spec fn decode_line(l: Seq<char>) -> Result<QualifierModel, ParseErrorType> {
    decode_fields(split_at(trim(l), '\t'))
}

/// Decoding classifies every failure as a field error: never as an I/O
/// failure, never as counter saturation.
pub proof fn lemma_decode_error_kinds(l: Seq<char>)
    ensures
        decode_line(l) is Err ==> decode_line(l)->Err_0 != ParseErrorType::IO,
        decode_line(l) is Err ==> decode_line(l)->Err_0 != ParseErrorType::TooBig,
        decode_line(l) is Err ==> decode_line(l)->Err_0 != ParseErrorType::MissingSurname,
{
}

/// A line whose fields run out before the first name or the application
/// id reports exactly the Missing kind of the first absent field.
pub proof fn lemma_missing_head(fs: Seq<Seq<char>>)
    requires
        fs.len() >= 1,
    ensures
        fs.len() == 1 ==> decode_fields(fs) == Err::<QualifierModel, ParseErrorType>(
            ParseErrorType::MissingFirstName,
        ),
        fs.len() == 2 ==> decode_fields(fs) == Err::<QualifierModel, ParseErrorType>(
            ParseErrorType::MissingApplicationId,
        ),
        fs.len() == 3 && !is_application_id(fs[2]) ==> decode_fields(fs) == Err::<
            QualifierModel,
            ParseErrorType,
        >(ParseErrorType::MissingApplicationId),
{
}

/// After the application id, fields that run out at each position yield
/// exactly the Missing kind of the field scheduled there; fields present
/// but failing their digit pattern yield exactly the Invalid kind; and a
/// full, valid tail yields the record, field for field.
pub proof fn lemma_tail_outcomes(
    fs: Seq<Seq<char>>,
    b: int,
    surname: Seq<char>,
    first_name: Seq<char>,
    middle_name: Option<Seq<char>>,
    id: nat,
)
    requires
        3 <= b,
    ensures
        fs.len() <= b ==> decode_tail(fs, b, surname, first_name, middle_name, id) == Err::<
            QualifierModel,
            ParseErrorType,
        >(ParseErrorType::MissingSeatNumber),
        fs.len() > b && !is_seat_number(fs[b]) ==> decode_tail(
            fs, b, surname, first_name, middle_name, id,
        ) == Err::<QualifierModel, ParseErrorType>(ParseErrorType::InvalidSeatNumber),
        fs.len() == b + 1 && is_seat_number(fs[b]) ==> decode_tail(
            fs, b, surname, first_name, middle_name, id,
        ) == Err::<QualifierModel, ParseErrorType>(ParseErrorType::MissingTime),
        fs.len() == b + 2 && is_seat_number(fs[b]) ==> decode_tail(
            fs, b, surname, first_name, middle_name, id,
        ) == Err::<QualifierModel, ParseErrorType>(ParseErrorType::MissingRoomAssignment),
        fs.len() > b + 2 && is_seat_number(fs[b]) && !is_room_assignment(fs[b + 2])
            ==> decode_tail(fs, b, surname, first_name, middle_name, id) == Err::<
            QualifierModel,
            ParseErrorType,
        >(ParseErrorType::InvalidRoomAssignment),
        fs.len() == b + 3 && is_seat_number(fs[b]) && is_room_assignment(fs[b + 2])
            ==> decode_tail(fs, b, surname, first_name, middle_name, id) == Err::<
            QualifierModel,
            ParseErrorType,
        >(ParseErrorType::MissingTestCenterCode),
        fs.len() > b + 3 && is_seat_number(fs[b]) && is_room_assignment(fs[b + 2])
            && !is_test_center_code(fs[b + 3]) ==> decode_tail(
            fs, b, surname, first_name, middle_name, id,
        ) == Err::<QualifierModel, ParseErrorType>(ParseErrorType::InvalidTestCenterCode),
        fs.len() == b + 4 && is_seat_number(fs[b]) && is_room_assignment(fs[b + 2])
            && is_test_center_code(fs[b + 3]) ==> decode_tail(
            fs, b, surname, first_name, middle_name, id,
        ) == Err::<QualifierModel, ParseErrorType>(ParseErrorType::MissingTestCenterName),
        fs.len() == b + 5 && is_seat_number(fs[b]) && is_room_assignment(fs[b + 2])
            && is_test_center_code(fs[b + 3]) ==> decode_tail(
            fs, b, surname, first_name, middle_name, id,
        ) == Err::<QualifierModel, ParseErrorType>(ParseErrorType::MissingTestCenterAddr),
        fs.len() >= b + 6 && is_seat_number(fs[b]) && is_room_assignment(fs[b + 2])
            && is_test_center_code(fs[b + 3]) ==> decode_tail(
            fs, b, surname, first_name, middle_name, id,
        ) == Ok::<QualifierModel, ParseErrorType>(
            QualifierModel {
                id,
                surname: title_case_spec(surname),
                first_name: title_case_spec(first_name),
                middle_name,
                seat_number: digits_value(fs[b]),
                time: fs[b + 1],
                room_assignment: digits_value(fs[b + 2]),
                test_center_code: digits_value(fs[b + 3]),
                test_center_name: fs[b + 4],
                test_center_addr: fs[b + 5],
            },
        ),
{
}

/// Middle-name disambiguation: when the third field matches the
/// application-id pattern it is the id and no middle name exists; when
/// it does not and the fourth matches, the third (if non-empty) is the
/// middle name, title-cased, and the fourth is the id. A produced record
/// always reflects the branch its line took.
pub proof fn lemma_middle_name_disambiguation(fs: Seq<Seq<char>>)
    requires
        fs.len() >= 3,
    ensures
        is_application_id(fs[2]) && decode_fields(fs) is Ok ==> decode_fields(
            fs,
        )->Ok_0.middle_name is None && decode_fields(fs)->Ok_0.id == digits_value(fs[2]),
        !is_application_id(fs[2]) && fs.len() >= 4 && is_application_id(fs[3])
            && decode_fields(fs) is Ok ==> decode_fields(fs)->Ok_0.middle_name
            == middle_name_of(fs[2]) && decode_fields(fs)->Ok_0.id == digits_value(fs[3]),
        !is_application_id(fs[2]) && fs.len() >= 4 && !is_application_id(fs[3])
            ==> decode_fields(fs) == Err::<QualifierModel, ParseErrorType>(
            ParseErrorType::InvalidApplicationId,
        ),
{
}

/// Decode one line, reporting any failure at line `lineno`.
pub fn parse_line(line: &str, lineno: u32) -> (r: Result<RawQualifier, ParseError>)
    ensures
        match r {
            Ok(q) => decode_line(line@) == Ok::<QualifierModel, ParseErrorType>(q@),
            Err(e) => decode_line(line@) is Err && e.spec_kind() == decode_line(
                line@,
            )->Err_0 && e.spec_line() == Some(lineno),
        },
{
    let trimmed = trim_str(line);
    let fields = split_str(trimmed, '\t');
    let ghost fs = fields.deep_view();
    let k = fields.len();
    if k < 2 {
        return Err(ParseError::new(ParseErrorType::MissingFirstName, Some(lineno)));
    }
    if k < 3 {
        return Err(ParseError::new(ParseErrorType::MissingApplicationId, Some(lineno)));
    }
    let surname = fields[0];
    let first_name = fields[1];
    let third = fields[2];
    let mut middle_name: Option<String> = None;
    let id_str: &str;
    let base: usize;
    if matches_digits(third, 7, 7) {
        id_str = third;
        base = 3;
    } else {
        if k < 4 {
            return Err(ParseError::new(ParseErrorType::MissingApplicationId, Some(lineno)));
        }
        let fourth = fields[3];
        if !matches_digits(fourth, 7, 7) {
            return Err(ParseError::new(ParseErrorType::InvalidApplicationId, Some(lineno)));
        }
        if !third.is_empty() {
            middle_name = Some(title_case(third));
        }
        id_str = fourth;
        base = 4;
    }
    let id = digits_to_u32(id_str) as u64;
    if k <= base {
        return Err(ParseError::new(ParseErrorType::MissingSeatNumber, Some(lineno)));
    }
    let seat_str = fields[base];
    if !matches_digits(seat_str, 3, 3) {
        return Err(ParseError::new(ParseErrorType::InvalidSeatNumber, Some(lineno)));
    }
    let seat_number = digits_to_u32(seat_str);
    if k <= base + 1 {
        return Err(ParseError::new(ParseErrorType::MissingTime, Some(lineno)));
    }
    let time = fields[base + 1].to_owned();
    if k <= base + 2 {
        return Err(ParseError::new(ParseErrorType::MissingRoomAssignment, Some(lineno)));
    }
    let room_str = fields[base + 2];
    if !matches_digits(room_str, 1, 2) {
        return Err(ParseError::new(ParseErrorType::InvalidRoomAssignment, Some(lineno)));
    }
    let room_assignment = digits_to_u32(room_str);
    if k <= base + 3 {
        return Err(ParseError::new(ParseErrorType::MissingTestCenterCode, Some(lineno)));
    }
    let code_str = fields[base + 3];
    if !matches_digits(code_str, 4, 4) {
        return Err(ParseError::new(ParseErrorType::InvalidTestCenterCode, Some(lineno)));
    }
    let test_center_code = digits_to_u32(code_str);
    if k <= base + 4 {
        return Err(ParseError::new(ParseErrorType::MissingTestCenterName, Some(lineno)));
    }
    if k <= base + 5 {
        return Err(ParseError::new(ParseErrorType::MissingTestCenterAddr, Some(lineno)));
    }
    let q = RawQualifier {
        id,
        surname: title_case(surname),
        first_name: title_case(first_name),
        middle_name,
        seat_number,
        time,
        room_assignment,
        test_center_code,
        test_center_name: fields[base + 4].to_owned(),
        test_center_addr: fields[base + 5].to_owned(),
    };
    proof {
        assert(decode_line(line@) == Ok::<QualifierModel, ParseErrorType>(q@)) by {
            assert(decode_fields(fs) =~= Ok::<QualifierModel, ParseErrorType>(q@));
        }
    }
    Ok(q)
}

/// The line-counter guard: a counter at its maximum can no longer accept
/// a line; any other counter passes through.
pub fn line_capacity(lineno: u32) -> (r: Result<u32, ParseError>)
    ensures
        lineno < u32::MAX ==> r == Ok::<u32, ParseError>(lineno),
        lineno == u32::MAX ==> r is Err && r->Err_0.spec_kind() == ParseErrorType::TooBig
            && r->Err_0.spec_line() == Some(u32::MAX),
{
    if lineno == u32::MAX {
        Err(ParseError::new(ParseErrorType::TooBig, Some(lineno)))
    } else {
        Ok(lineno)
    }
}

/// The lazy record sequence: pulls one line at a time from its reader,
/// decodes it, and yields one result per line, counting lines from 1 for
/// diagnostics — on failures as well as successes.
pub struct Qualifiers<R: LineReader> {
    lineno: u32,
    reader: R,
}

impl<R: LineReader> Qualifiers<R> {
    /// The 1-based number the next pulled line will carry.
    pub closed spec fn spec_lineno(&self) -> u32 {
        self.lineno
    }

    /// The underlying line source.
    pub closed spec fn spec_reader(&self) -> R {
        self.reader
    }

    /// The logical lines the source has yet to produce.
    pub open spec fn spec_lines(&self) -> Seq<Seq<char>> {
        self.spec_reader().lines()
    }

    /// Wrap a line source, starting the line counter at 1.
    pub fn from_line_reader(reader: R) -> (r: Self)
        ensures
            r.spec_lineno() == 1,
            r.spec_reader() == reader,
    {
        Qualifiers { lineno: 1, reader }
    }

    /// The number for the next line, or the saturation error once the
    /// counter can no longer advance.
    fn next_lineno(&self) -> (r: Result<u32, ParseError>)
        ensures
            self.spec_lineno() < u32::MAX ==> r == Ok::<u32, ParseError>(self.spec_lineno()),
            self.spec_lineno() == u32::MAX ==> r is Err && r->Err_0.spec_kind()
                == ParseErrorType::TooBig && r->Err_0.spec_line() == Some(u32::MAX),
    {
        line_capacity(self.lineno)
    }

    /// Pull one line and decode it. Every yielded record or field error
    /// is the decode of the head of the source's line model, which the
    /// pull consumes; `None` means the model is empty and the source is
    /// done. An error is either the source's own I/O report (no line
    /// number, impossible for an infallible source), the
    /// counter-saturation report, or a field error carrying the number of
    /// the line it was found on. The counter advances once per line
    /// consumed, on success and on field errors alike.
    pub fn next(&mut self) -> (r: Option<Result<RawQualifier, ParseError>>)
        ensures
            match r {
                None => {
                    &&& old(self).spec_lines().len() == 0
                    &&& final(self).spec_lines() == old(self).spec_lines()
                    &&& final(self).spec_lineno() == old(self).spec_lineno()
                },
                Some(Ok(q)) => {
                    &&& old(self).spec_lines().len() > 0
                    &&& final(self).spec_lines() == old(self).spec_lines().drop_first()
                    &&& old(self).spec_lineno() < u32::MAX
                    &&& final(self).spec_lineno() == old(self).spec_lineno() + 1
                    &&& decode_line(old(self).spec_lines()[0]) == Ok::<
                        QualifierModel,
                        ParseErrorType,
                    >(q@)
                },
                Some(Err(e)) => {
                    if e.spec_kind() == ParseErrorType::IO {
                        &&& !old(self).spec_reader().infallible()
                        &&& e.spec_line() is None
                        &&& final(self).spec_lineno() == old(self).spec_lineno()
                    } else if e.spec_kind() == ParseErrorType::TooBig {
                        &&& old(self).spec_lines().len() > 0
                        &&& final(self).spec_lines() == old(self).spec_lines().drop_first()
                        &&& old(self).spec_lineno() == u32::MAX
                        &&& final(self).spec_lineno() == u32::MAX
                        &&& e.spec_line() == Some(u32::MAX)
                    } else {
                        &&& old(self).spec_lines().len() > 0
                        &&& final(self).spec_lines() == old(self).spec_lines().drop_first()
                        &&& old(self).spec_lineno() < u32::MAX
                        &&& final(self).spec_lineno() == old(self).spec_lineno() + 1
                        &&& e.spec_line() == Some(old(self).spec_lineno())
                        &&& decode_line(old(self).spec_lines()[0]) == Err::<
                            QualifierModel,
                            ParseErrorType,
                        >(e.spec_kind())
                    }
                },
            },
    {
        match self.reader.next_line() {
            None => None,
            Some(Err(e)) => Some(Err(e)),
            Some(Ok(line)) => {
                let lineno = match self.next_lineno() {
                    Err(e) => {
                        return Some(Err(e));
                    },
                    Ok(n) => n,
                };
                let result = parse_line(line.as_str(), lineno);
                self.lineno = lineno + 1;
                proof {
                    lemma_decode_error_kinds(line@);
                    if result is Ok {
                        assert(decode_line(line@) == Ok::<QualifierModel, ParseErrorType>(
                            result->Ok_0@,
                        ));
                    }
                }
                Some(result)
            },
        }
    }
}

impl<'a> Qualifiers<StrLines<'a>> {
    /// Decode records straight out of an in-memory text, line by line.
    pub fn from_str(input: &'a str) -> (r: Self)
        ensures
            r.spec_lineno() == 1,
            r.spec_lines() == crate::lines::split_lines(input@),
    {
        Qualifiers::from_line_reader(StrLines::new(input))
    }
}

} // verus!
