//! Character-level text primitives shared by the line source and the
//! decoder: finding a separator, splitting at a separator, and trimming
//! surrounding whitespace.

use vstd::prelude::*;

verus! {

/// `c` has the Unicode White_Space property: the ASCII whitespace
/// characters plus the next line, no-break and ogham space marks, the
/// typographic spaces, the line and paragraph separators, and the
/// ideographic space.
pub open spec fn is_space(c: char) -> bool {
    ||| c == ' '
    ||| c == '\t'
    ||| c == '\n'
    ||| c == '\u{b}'
    ||| c == '\u{c}'
    ||| c == '\r'
    ||| c == '\u{85}'
    ||| c == '\u{a0}'
    ||| c == '\u{1680}'
    ||| ('\u{2000}' <= c && c <= '\u{200a}')
    ||| c == '\u{2028}'
    ||| c == '\u{2029}'
    ||| c == '\u{202f}'
    ||| c == '\u{205f}'
    ||| c == '\u{3000}'
}

/// Index of the first occurrence of `sep` in `t`, if any.
pub open spec fn find_char(t: Seq<char>, sep: char) -> Option<int>
    decreases t.len(),
{
    if t.len() == 0 {
        None
    } else if t[0] == sep {
        Some(0)
    } else {
        match find_char(t.drop_first(), sep) {
            None => None,
            Some(i) => Some(i + 1),
        }
    }
}

/// What a successful or failed search means, position by position.
pub proof fn lemma_find_char(t: Seq<char>, sep: char)
    ensures
        match find_char(t, sep) {
            Some(i) => 0 <= i < t.len() && t[i] == sep && (forall|j: int|
                0 <= j < i ==> t[j] != sep),
            None => forall|j: int| 0 <= j < t.len() ==> t[j] != sep,
        },
    decreases t.len(),
{
    if t.len() > 0 && t[0] != sep {
        lemma_find_char(t.drop_first(), sep);
        assert(forall|j: int| 0 <= j < t.len() - 1 ==> t.drop_first()[j] == t[j + 1]);
        match find_char(t.drop_first(), sep) {
            Some(i) => {
                assert forall|j: int| 0 <= j < i + 1 implies t[j] != sep by {
                    if j > 0 {
                        assert(t.drop_first()[j - 1] != sep);
                    }
                }
            },
            None => {
                assert forall|j: int| 0 <= j < t.len() implies t[j] != sep by {
                    if j > 0 {
                        assert(t.drop_first()[j - 1] != sep);
                    }
                }
            },
        }
    }
}

/// A position holding `sep` with none before it is exactly what the
/// search returns.
pub proof fn lemma_find_char_at(t: Seq<char>, sep: char, i: int)
    requires
        0 <= i < t.len(),
        t[i] == sep,
        forall|j: int| 0 <= j < i ==> t[j] != sep,
    ensures
        find_char(t, sep) == Some(i),
    decreases t.len(),
{
    if i > 0 {
        lemma_find_char_at(t.drop_first(), sep, i - 1);
    }
}

/// When no position holds `sep`, the search fails.
pub proof fn lemma_find_char_none(t: Seq<char>, sep: char)
    requires
        forall|j: int| 0 <= j < t.len() ==> t[j] != sep,
    ensures
        find_char(t, sep) is None,
    decreases t.len(),
{
    if t.len() > 0 {
        lemma_find_char_none(t.drop_first(), sep);
    }
}

/// Split `t` at every occurrence of `sep`. Empty pieces are kept, so a
/// split always has at least one piece, and `n` separators give `n + 1`
/// pieces.
pub open spec fn split_at(t: Seq<char>, sep: char) -> Seq<Seq<char>>
    decreases t.len(),
{
    if t.len() == 0 {
        seq![t]
    } else if t[0] == sep {
        seq![Seq::<char>::empty()] + split_at(t.drop_first(), sep)
    } else {
        let rest = split_at(t.drop_first(), sep);
        seq![seq![t[0]] + rest[0]] + rest.drop_first()
    }
}

/// A text without its separator is a single piece.
pub proof fn lemma_split_at_whole(t: Seq<char>, sep: char)
    requires
        find_char(t, sep) is None,
    ensures
        split_at(t, sep) == seq![t],
    decreases t.len(),
{
    if t.len() > 0 {
        lemma_split_at_whole(t.drop_first(), sep);
        let rest = split_at(t.drop_first(), sep);
        assert(seq![t[0]] + rest[0] =~= t);
        assert(seq![seq![t[0]] + rest[0]] + rest.drop_first() =~= seq![t]);
    }
}

/// Splitting takes off the piece before the first separator, then splits
/// the remainder.
pub proof fn lemma_split_at_step(t: Seq<char>, sep: char, i: int)
    requires
        find_char(t, sep) == Some(i),
    ensures
        0 <= i < t.len(),
        split_at(t, sep) == seq![t.take(i)] + split_at(
            t.subrange(i + 1, t.len() as int),
            sep,
        ),
    decreases t.len(),
{
    lemma_find_char(t, sep);
    if i == 0 {
        assert(t.take(0) =~= Seq::<char>::empty());
        assert(t.subrange(1, t.len() as int) =~= t.drop_first());
    } else {
        assert(find_char(t.drop_first(), sep) == Some(i - 1));
        lemma_split_at_step(t.drop_first(), sep, i - 1);
        let rest = split_at(t.drop_first(), sep);
        assert(rest == seq![t.drop_first().take(i - 1)] + split_at(
            t.drop_first().subrange(i, t.len() as int - 1),
            sep,
        ));
        assert(seq![t[0]] + rest[0] =~= t.take(i));
        assert(t.drop_first().subrange(i, t.len() as int - 1) =~= t.subrange(
            i + 1,
            t.len() as int,
        ));
        assert(split_at(t, sep) =~= seq![t.take(i)] + split_at(
            t.subrange(i + 1, t.len() as int),
            sep,
        ));
    }
}

/// `t` without its leading whitespace.
pub open spec fn trim_front(t: Seq<char>) -> Seq<char>
    decreases t.len(),
{
    if t.len() > 0 && is_space(t[0]) {
        trim_front(t.drop_first())
    } else {
        t
    }
}

/// `t` without its trailing whitespace.
pub open spec fn trim_back(t: Seq<char>) -> Seq<char>
    decreases t.len(),
{
    if t.len() > 0 && is_space(t.last()) {
        trim_back(t.drop_last())
    } else {
        t
    }
}

/// `t` without its surrounding whitespace.
pub open spec fn trim(t: Seq<char>) -> Seq<char> {
    trim_back(trim_front(t))
}

/// Find the first occurrence of `sep` in `s` at or after position `from`.
pub fn find_char_in(s: &str, from: usize, sep: char) -> (r: Option<usize>)
    requires
        from <= s@.len(),
    ensures
        match r {
            Some(i) => from <= i < s@.len() && s@[i as int] == sep && (forall|j: int|
                from <= j < i ==> s@[j] != sep),
            None => forall|j: int| from <= j < s@.len() ==> s@[j] != sep,
        },
{
    let n = s.unicode_len();
    let mut i: usize = from;
    while i < n
        invariant
            n == s@.len(),
            from <= i <= n,
            forall|j: int| from <= j < i ==> s@[j] != sep,
        decreases n - i,
    {
        if s.get_char(i) == sep {
            return Some(i);
        }
        i += 1;
    }
    None
}

/// Split `s` at every occurrence of `sep`, keeping empty pieces.
pub fn split_str<'a>(s: &'a str, sep: char) -> (r: Vec<&'a str>)
    ensures
        r.deep_view() == split_at(s@, sep),
        r@.len() >= 1,
{
    let n = s.unicode_len();
    let mut out: Vec<&'a str> = Vec::new();
    let mut pos: usize = 0;
    proof {
        assert(s@.subrange(0, n as int) =~= s@);
        assert(out.deep_view() + split_at(s@, sep) =~= split_at(s@, sep));
    }
    loop
        invariant
            n == s@.len(),
            pos <= n,
            split_at(s@, sep) == out.deep_view() + split_at(
                s@.subrange(pos as int, n as int),
                sep,
            ),
        decreases n - pos,
    {
        let ghost rem = s@.subrange(pos as int, n as int);
        match find_char_in(s, pos, sep) {
            None => {
                let piece = s.substring_char(pos, n);
                proof {
                    assert forall|j: int| 0 <= j < rem.len() implies rem[j] != sep by {
                        assert(rem[j] == s@[pos + j]);
                    }
                    lemma_find_char_none(rem, sep);
                    lemma_split_at_whole(rem, sep);
                }
                out.push(piece);
                proof {
                    assert(out.deep_view() =~= split_at(s@, sep));
                }
                return out;
            },
            Some(i) => {
                let piece = s.substring_char(pos, i);
                proof {
                    assert(rem[i - pos] == s@[i as int]);
                    assert forall|j: int| 0 <= j < i - pos implies rem[j] != sep by {
                        assert(rem[j] == s@[pos + j]);
                    }
                    lemma_find_char_at(rem, sep, i - pos);
                    lemma_split_at_step(rem, sep, i - pos);
                    assert(rem.take(i - pos) =~= s@.subrange(pos as int, i as int));
                    assert(rem.subrange(i - pos + 1, rem.len() as int) =~= s@.subrange(
                        i + 1,
                        n as int,
                    ));
                }
                let ghost old_dv = out.deep_view();
                out.push(piece);
                proof {
                    assert(out.deep_view() =~= old_dv.push(piece@));
                    assert(out.deep_view() + split_at(
                        s@.subrange(i + 1, n as int),
                        sep,
                    ) =~= split_at(s@, sep));
                }
                pos = i + 1;
            },
        }
    }
}

/// Trim surrounding whitespace from `s`.
pub fn trim_str<'a>(s: &'a str) -> (r: &'a str)
    ensures
        r@ == trim(s@),
{
    let n = s.unicode_len();
    let mut i: usize = 0;
    proof {
        assert(s@.subrange(0, n as int) =~= s@);
    }
    while i < n && is_space_char(s.get_char(i))
        invariant
            n == s@.len(),
            i <= n,
            trim_front(s@) == trim_front(s@.subrange(i as int, n as int)),
        decreases n - i,
    {
        proof {
            assert(s@.subrange(i as int, n as int).drop_first() =~= s@.subrange(
                i + 1,
                n as int,
            ));
        }
        i += 1;
    }
    proof {
        assert(trim_front(s@) == s@.subrange(i as int, n as int));
    }
    let mut j: usize = n;
    while j > i && is_space_char(s.get_char(j - 1))
        invariant
            n == s@.len(),
            i <= j <= n,
            trim_front(s@) == s@.subrange(i as int, n as int),
            trim_back(s@.subrange(i as int, n as int)) == trim_back(
                s@.subrange(i as int, j as int),
            ),
        decreases j,
    {
        proof {
            assert(s@.subrange(i as int, j as int).drop_last() =~= s@.subrange(
                i as int,
                j - 1,
            ));
        }
        j -= 1;
    }
    proof {
        assert(trim_back(s@.subrange(i as int, j as int)) == s@.subrange(
            i as int,
            j as int,
        ));
    }
    s.substring_char(i, j)
}

/// Decide the Unicode White_Space property for one character.
pub fn is_space_char(c: char) -> (r: bool)
    ensures
        r == is_space(c),
{
    c == ' ' || c == '\t' || c == '\n' || c == '\u{b}' || c == '\u{c}' || c == '\r'
        || c == '\u{85}' || c == '\u{a0}' || c == '\u{1680}'
        || ('\u{2000}' <= c && c <= '\u{200a}') || c == '\u{2028}' || c == '\u{2029}'
        || c == '\u{202f}' || c == '\u{205f}' || c == '\u{3000}'
}

} // verus!
