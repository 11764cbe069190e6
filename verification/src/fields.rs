//! Field validators: the fixed digit-count patterns of the numeric
//! fields, and conversion of a checked digit run to its numeric value.

use vstd::prelude::*;

verus! {

/// `c` is a decimal digit.
pub open spec fn is_digit(c: char) -> bool {
    '0' <= c && c <= '9'
}

/// Every character of `s` is a decimal digit.
pub open spec fn all_digits(s: Seq<char>) -> bool {
    forall|i: int| 0 <= i < s.len() ==> is_digit(#[trigger] s[i])
}

/// `s` is a digit run whose length lies in `[min, max]`.
pub open spec fn is_bounded_digits(s: Seq<char>, min: nat, max: nat) -> bool {
    min <= s.len() <= max && all_digits(s)
}

/// The application-id pattern: exactly 7 digits.
pub open spec fn is_application_id(s: Seq<char>) -> bool {
    is_bounded_digits(s, 7, 7)
}

/// The seat-number pattern: exactly 3 digits.
pub open spec fn is_seat_number(s: Seq<char>) -> bool {
    is_bounded_digits(s, 3, 3)
}

/// The room-assignment pattern: 1 or 2 digits.
pub open spec fn is_room_assignment(s: Seq<char>) -> bool {
    is_bounded_digits(s, 1, 2)
}

/// The test-center-code pattern: exactly 4 digits.
pub open spec fn is_test_center_code(s: Seq<char>) -> bool {
    is_bounded_digits(s, 4, 4)
}

/// The numeric value of one digit character.
pub open spec fn digit_val(c: char) -> nat
    recommends
        is_digit(c),
{
    ((c as int) - ('0' as int)) as nat
}

/// The number a digit run writes, most significant digit first.
pub open spec fn digits_value(s: Seq<char>) -> nat
    recommends
        all_digits(s),
    decreases s.len(),
{
    if s.len() == 0 {
        0
    } else {
        digits_value(s.drop_last()) * 10 + digit_val(s.last())
    }
}

/// A digit run of at most `k` digits (`k` at most 7) writes a number
/// below the `k`th power of ten.
proof fn lemma_digits_value_bound_by(s: Seq<char>, k: int)
    requires
        all_digits(s),
        s.len() <= k <= 7,
    ensures
        s.len() == 0 ==> digits_value(s) == 0,
        s.len() == 1 ==> digits_value(s) <= 9,
        s.len() == 2 ==> digits_value(s) <= 99,
        s.len() == 3 ==> digits_value(s) <= 999,
        s.len() == 4 ==> digits_value(s) <= 9999,
        s.len() == 5 ==> digits_value(s) <= 99999,
        s.len() == 6 ==> digits_value(s) <= 999999,
        s.len() == 7 ==> digits_value(s) <= 9999999,
    decreases s.len(),
{
    if s.len() > 0 {
        assert(forall|i: int| 0 <= i < s.len() - 1 ==> s.drop_last()[i] == s[i]);
        lemma_digits_value_bound_by(s.drop_last(), k - 1);
        assert(is_digit(s.last()));
        assert(digit_val(s.last()) <= 9);
    }
}

/// Check that `s` is a digit run of length within `[min, max]`.
pub fn matches_digits(s: &str, min: usize, max: usize) -> (r: bool)
    ensures
        r == is_bounded_digits(s@, min as nat, max as nat),
{
    let n = s.unicode_len();
    if n < min || n > max {
        return false;
    }
    let mut i: usize = 0;
    while i < n
        invariant
            n == s@.len(),
            i <= n,
            min <= n <= max,
            forall|j: int| 0 <= j < i ==> is_digit(#[trigger] s@[j]),
        decreases n - i,
    {
        let c = s.get_char(i);
        if c < '0' || c > '9' {
            return false;
        }
        i += 1;
    }
    true
}

/// Convert a digit run of at most 7 digits to the number it writes.
pub fn digits_to_u32(s: &str) -> (v: u32)
    requires
        all_digits(s@),
        s@.len() <= 7,
    ensures
        v as nat == digits_value(s@),
        v < 10000000,
{
    let n = s.unicode_len();
    let mut v: u32 = 0;
    let mut i: usize = 0;
    proof {
        assert(s@.take(0) =~= Seq::<char>::empty());
    }
    while i < n
        invariant
            n == s@.len() <= 7,
            i <= n,
            all_digits(s@),
            v as nat == digits_value(s@.take(i as int)),
            v < 10000000,
        decreases n - i,
    {
        let c = s.get_char(i);
        proof {
            assert(is_digit(s@[i as int]));
            let pre = s@.take(i as int + 1);
            assert(pre.drop_last() =~= s@.take(i as int));
            assert(pre.last() == s@[i as int]);
            assert(forall|j: int| 0 <= j < pre.len() ==> pre[j] == s@[j]);
            lemma_digits_value_bound_by(s@.take(i as int), i as int);
        }
        let d: u32 = (c as u32) - 48;
        v = v * 10 + d;
        i += 1;
    }
    proof {
        assert(s@.take(n as int) =~= s@);
    }
    v
}

} // verus!
