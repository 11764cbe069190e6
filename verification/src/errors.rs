//! The error taxonomy: one kind per distinguishable failure, plus the
//! 1-based line number where the failure was detected, when one is known.

use vstd::prelude::*;

verus! {

/// Every way a pull can fail: an I/O failure of the line source, a line
/// counter that can no longer advance, and one kind per required or
/// pattern-checked field.
#[derive(Debug, Clone, Copy, PartialEq, Eq, Structural)]
pub enum ParseErrorType {
    IO,
    TooBig,
    MissingSurname,
    MissingFirstName,
    MissingApplicationId,
    InvalidApplicationId,
    MissingSeatNumber,
    InvalidSeatNumber,
    MissingRoomAssignment,
    InvalidRoomAssignment,
    MissingTime,
    MissingTestCenterCode,
    InvalidTestCenterCode,
    MissingTestCenterName,
    MissingTestCenterAddr,
}

/// The diagnostic text for each error kind.
pub open spec fn spec_kind_message(kind: ParseErrorType) -> Seq<char> {
    match kind {
        ParseErrorType::IO => "I/O error occurred"@,
        ParseErrorType::TooBig => "data is too big to handle"@,
        ParseErrorType::MissingSurname => "missing surname data"@,
        ParseErrorType::MissingFirstName => "missing first name data"@,
        ParseErrorType::MissingApplicationId => "missing application id"@,
        ParseErrorType::InvalidApplicationId => "invalid application id"@,
        ParseErrorType::MissingSeatNumber => "missing seat number"@,
        ParseErrorType::InvalidSeatNumber => "invalid seat number"@,
        ParseErrorType::MissingRoomAssignment => "missing room assignment"@,
        ParseErrorType::InvalidRoomAssignment => "invalid room assignment"@,
        ParseErrorType::MissingTime => "missing time"@,
        ParseErrorType::MissingTestCenterCode => "missing test center code"@,
        ParseErrorType::InvalidTestCenterCode => "invalid test center code"@,
        ParseErrorType::MissingTestCenterName => "missing test center name"@,
        ParseErrorType::MissingTestCenterAddr => "missing test center addr"@,
    }
}

impl ParseErrorType {
    /// The diagnostic text of this kind.
    pub fn message(&self) -> (r: String)
        ensures
            r@ == spec_kind_message(*self),
    {
        match self {
            ParseErrorType::IO => String::from_str("I/O error occurred"),
            ParseErrorType::TooBig => String::from_str("data is too big to handle"),
            ParseErrorType::MissingSurname => String::from_str("missing surname data"),
            ParseErrorType::MissingFirstName => String::from_str("missing first name data"),
            ParseErrorType::MissingApplicationId => String::from_str("missing application id"),
            ParseErrorType::InvalidApplicationId => String::from_str("invalid application id"),
            ParseErrorType::MissingSeatNumber => String::from_str("missing seat number"),
            ParseErrorType::InvalidSeatNumber => String::from_str("invalid seat number"),
            ParseErrorType::MissingRoomAssignment => String::from_str("missing room assignment"),
            ParseErrorType::InvalidRoomAssignment => String::from_str("invalid room assignment"),
            ParseErrorType::MissingTime => String::from_str("missing time"),
            ParseErrorType::MissingTestCenterCode => String::from_str("missing test center code"),
            ParseErrorType::InvalidTestCenterCode => String::from_str("invalid test center code"),
            ParseErrorType::MissingTestCenterName => String::from_str("missing test center name"),
            ParseErrorType::MissingTestCenterAddr => String::from_str("missing test center addr"),
        }
    }
}

/// The decimal digit characters.
pub open spec fn spec_digit_char(d: nat) -> char
    recommends
        d < 10,
{
    if d == 0 { '0' } else if d == 1 { '1' } else if d == 2 { '2' } else if d == 3 { '3' }
    else if d == 4 { '4' } else if d == 5 { '5' } else if d == 6 { '6' } else if d == 7 { '7' }
    else if d == 8 { '8' } else { '9' }
}

/// The decimal writing of `n`, most significant digit first, without
/// leading zeros (zero itself is a single digit).
pub open spec fn spec_decimal(n: nat) -> Seq<char>
    decreases n,
{
    if n < 10 {
        seq![spec_digit_char(n)]
    } else {
        spec_decimal(n / 10).push(spec_digit_char(n % 10))
    }
}

/// The character of one decimal digit.
fn digit_char(d: u32) -> (r: char)
    requires
        d < 10,
    ensures
        r == spec_digit_char(d as nat),
{
    if d == 0 { '0' } else if d == 1 { '1' } else if d == 2 { '2' } else if d == 3 { '3' }
    else if d == 4 { '4' } else if d == 5 { '5' } else if d == 6 { '6' } else if d == 7 { '7' }
    else if d == 8 { '8' } else { '9' }
}

/// Write `n` in decimal.
fn u32_decimal(n: u32) -> (r: String)
    ensures
        r@ == spec_decimal(n as nat),
    decreases n,
{
    if n < 10 {
        let mut s = String::new();
        crate::casing::push_char(&mut s, digit_char(n));
        proof {
            assert(s@ =~= spec_decimal(n as nat));
        }
        s
    } else {
        let mut s = u32_decimal(n / 10);
        crate::casing::push_char(&mut s, digit_char(n % 10));
        s
    }
}

/// One classified failure: its kind, the 1-based line it was detected
/// on when a line number had already been assigned (I/O failures of the
/// line source precede line assignment and carry none), and, for errors
/// wrapping another failure, the text of that underlying cause, kept for
/// diagnostic chaining.
#[derive(Debug, Clone)]
pub struct ParseError {
    kind: ParseErrorType,
    line: Option<u32>,
    cause: Option<String>,
}

impl ParseError {
    /// The kind of this error.
    pub closed spec fn spec_kind(&self) -> ParseErrorType {
        self.kind
    }

    /// The line this error was detected on, if one was assigned.
    pub closed spec fn spec_line(&self) -> Option<u32> {
        self.line
    }

    /// The text of the underlying failure this error wraps, if any.
    pub closed spec fn spec_cause(&self) -> Option<Seq<char>> {
        self.cause.deep_view()
    }

    /// An error is an I/O report exactly when it has the I/O kind and no
    /// line number.
    pub open spec fn is_io(&self) -> bool {
        self.spec_kind() == ParseErrorType::IO && self.spec_line() is None
    }

    pub fn new(kind: ParseErrorType, line: Option<u32>) -> (r: Self)
        ensures
            r.spec_kind() == kind,
            r.spec_line() == line,
            r.spec_cause() is None,
    {
        ParseError { kind, line, cause: None }
    }

    /// An error wrapping an underlying failure, whose text it carries.
    pub fn with_cause(kind: ParseErrorType, line: Option<u32>, cause: String) -> (r: Self)
        ensures
            r.spec_kind() == kind,
            r.spec_line() == line,
            r.spec_cause() == Some(cause@),
    {
        ParseError { kind, line, cause: Some(cause) }
    }

    pub fn error_type(&self) -> (r: &ParseErrorType)
        ensures
            *r == self.spec_kind(),
    {
        &self.kind
    }

    pub fn line(&self) -> (r: Option<u32>)
        ensures
            r == self.spec_line(),
    {
        self.line
    }

    /// The text of the underlying failure, if this error wraps one.
    pub fn cause(&self) -> (r: &Option<String>)
        ensures
            r.deep_view() == self.spec_cause(),
    {
        &self.cause
    }

    /// The full diagnostic text: the kind's message, then the line it
    /// was detected on, when one was assigned.
    pub open spec fn spec_message(&self) -> Seq<char> {
        match self.spec_line() {
            None => spec_kind_message(self.spec_kind()),
            Some(n) => spec_kind_message(self.spec_kind()) + " at line "@ + spec_decimal(
                n as nat,
            ),
        }
    }

    /// Render the full diagnostic text.
    pub fn message(&self) -> (r: String)
        ensures
            r@ == self.spec_message(),
    {
        let mut s = self.kind.message();
        match self.line {
            None => s,
            Some(n) => {
                s.append(" at line ");
                let num = u32_decimal(n);
                s.append(num.as_str());
                s
            },
        }
    }
}

} // verus!
