//! The decoded record types and their mathematical model.

use vstd::prelude::*;

verus! {

/// Mathematical model of one decoded qualifier line: text fields as
/// character sequences, numeric fields as unbounded naturals.
#[verifier::ext_equal]
pub ghost struct QualifierModel {
    pub id: nat,
    pub surname: Seq<char>,
    pub first_name: Seq<char>,
    pub middle_name: Option<Seq<char>>,
    pub seat_number: nat,
    pub time: Seq<char>,
    pub room_assignment: nat,
    pub test_center_code: nat,
    pub test_center_name: Seq<char>,
    pub test_center_addr: Seq<char>,
}

/// One examinee's logistics for a test date, decoded and validated from a
/// single input line. In the source text the application id has exactly 7
/// decimal digits, the seat number exactly 3, the room assignment 1 or 2,
/// and the test center code exactly 4; name fields are title-cased.
#[derive(Debug)]
pub struct RawQualifier {
    pub id: u64,
    pub surname: String,
    pub first_name: String,
    pub middle_name: Option<String>,
    pub seat_number: u32,
    pub time: String,
    pub room_assignment: u32,
    pub test_center_code: u32,
    pub test_center_name: String,
    pub test_center_addr: String,
}

impl View for RawQualifier {
    type V = QualifierModel;

    open spec fn view(&self) -> QualifierModel {
        QualifierModel {
            id: self.id as nat,
            surname: self.surname@,
            first_name: self.first_name@,
            middle_name: self.middle_name.deep_view(),
            seat_number: self.seat_number as nat,
            time: self.time@,
            room_assignment: self.room_assignment as nat,
            test_center_code: self.test_center_code as nat,
            test_center_name: self.test_center_name@,
            test_center_addr: self.test_center_addr@,
        }
    }
}

/// An examinee row as the storage collaborator keys it: the test center is
/// referenced by code only, and the numeric fields are widened.
#[derive(Debug)]
pub struct Examinee {
    pub id: u64,
    pub surname: String,
    pub first_name: String,
    pub middle_name: Option<String>,
    pub seat_number: u64,
    pub time: String,
    pub room_assignment: u64,
    pub test_center_code: u64,
}

} // verus!
