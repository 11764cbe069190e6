//! Title-case normalization for name fields.
//!
//! Title case here means: the first character of each space-separated word
//! is uppercased, every other character is lowercased. Case conversion is
//! ASCII-only: letters outside `a..z` / `A..Z` pass through unchanged — a
//! known, deliberate limitation for names in non-ASCII alphabets.

use vstd::prelude::*;

verus! {

/// ASCII-only uppercase of one character: `a..z` map to `A..Z`,
/// everything else is unchanged.
pub open spec fn upper_char(c: char) -> char {
    if 'a' <= c && c <= 'z' {
        ((c as u32) - 32) as char
    } else {
        c
    }
}

/// ASCII-only lowercase of one character: `A..Z` map to `a..z`,
/// everything else is unchanged.
pub open spec fn lower_char(c: char) -> char {
    if 'A' <= c && c <= 'Z' {
        ((c as u32) + 32) as char
    } else {
        c
    }
}

/// Position `i` starts a word: it is the first position, or follows a
/// space.
pub open spec fn word_start(s: Seq<char>, i: int) -> bool {
    i == 0 || s[i - 1] == ' '
}

/// Title case of a whole text: uppercase at each word start, lowercase
/// everywhere else.
pub open spec fn title_case_spec(s: Seq<char>) -> Seq<char> {
    Seq::new(
        s.len(),
        |i: int|
            if word_start(s, i) {
                upper_char(s[i])
            } else {
                lower_char(s[i])
            },
    )
}

/// Case conversion never makes or unmakes a space, so word boundaries
/// survive it.
proof fn lemma_case_keeps_spaces(c: char)
    ensures
        (upper_char(c) == ' ') == (c == ' '),
        (lower_char(c) == ' ') == (c == ' '),
{
}

/// Converting a character twice is the same as converting it once.
proof fn lemma_case_stable(c: char)
    ensures
        upper_char(upper_char(c)) == upper_char(c),
        lower_char(lower_char(c)) == lower_char(c),
{
}

/// Re-applying title-case normalization to an already-normalized text
/// yields the same text.
pub proof fn lemma_title_case_idempotent(s: Seq<char>)
    ensures
        title_case_spec(title_case_spec(s)) == title_case_spec(s),
{
    let t = title_case_spec(s);
    assert forall|i: int| 0 <= i < t.len() implies title_case_spec(t)[i] == t[i] by {
        if i > 0 {
            lemma_case_keeps_spaces(s[i - 1]);
        }
        assert(word_start(t, i) == word_start(s, i));
        lemma_case_stable(s[i]);
    }
    assert(title_case_spec(t) =~= t);
}

/// Relies on `char::to_ascii_uppercase`: ASCII lowercase letters map to
/// the uppercase letter 32 below them, every other character is returned
/// unchanged.
#[verifier::external_body]
fn ascii_upper(c: char) -> (r: char)
    ensures
        r == upper_char(c),
{
    c.to_ascii_uppercase()
}

/// Relies on `char::to_ascii_lowercase`: ASCII uppercase letters map to
/// the lowercase letter 32 above them, every other character is returned
/// unchanged.
#[verifier::external_body]
fn ascii_lower(c: char) -> (r: char)
    ensures
        r == lower_char(c),
{
    c.to_ascii_lowercase()
}

/// Relies on `String::push`: appends exactly one character at the end.
#[verifier::external_body]
pub(crate) fn push_char(s: &mut String, c: char)
    ensures
        final(s)@ == old(s)@.push(c),
{
    s.push(c)
}

/// Title-case `s`: uppercase the first character of each space-separated
/// word, lowercase the rest. Non-ASCII letters pass through unchanged.
pub fn title_case(s: &str) -> (r: String)
    ensures
        r@ == title_case_spec(s@),
{
    let n = s.unicode_len();
    let mut out = String::new();
    let mut i: usize = 0;
    proof {
        assert(out@ =~= title_case_spec(s@).take(0));
    }
    while i < n
        invariant
            n == s@.len(),
            i <= n,
            out@ == title_case_spec(s@).take(i as int),
        decreases n - i,
    {
        let c = s.get_char(i);
        let start = i == 0 || s.get_char(i - 1) == ' ';
        let converted = if start {
            ascii_upper(c)
        } else {
            ascii_lower(c)
        };
        push_char(&mut out, converted);
        proof {
            assert(title_case_spec(s@).take(i + 1) =~= title_case_spec(s@).take(
                i as int,
            ).push(converted));
        }
        i += 1;
    }
    proof {
        assert(title_case_spec(s@).take(n as int) =~= title_case_spec(s@));
    }
    out
}

} // verus!
