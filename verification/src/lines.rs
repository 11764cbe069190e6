//! The line source: a lazy sequence of logical lines over an input,
//! hiding whether lines are carved out of an in-memory text or read one
//! at a time from a byte stream.

use vstd::prelude::*;

use crate::errors::ParseError;
use crate::text::{find_char, lemma_find_char_at, lemma_find_char_none};

verus! {

/// One trailing carriage return removed.
pub open spec fn strip_cr(l: Seq<char>) -> Seq<char> {
    if l.len() > 0 && l.last() == '\r' {
        l.drop_last()
    } else {
        l
    }
}

/// The logical lines of a text: the pieces between line feeds, each with
/// a carriage return before the line feed removed. A line feed terminates
/// a line rather than separating two, so a trailing line feed opens no
/// empty final line, and a last line without one is still a line.
pub open spec fn split_lines(t: Seq<char>) -> Seq<Seq<char>>
    decreases t.len(),
{
    if t.len() == 0 {
        Seq::empty()
    } else {
        match find_char(t, '\n') {
            None => seq![t],
            Some(i) => if 0 <= i < t.len() {
                seq![strip_cr(t.take(i))] + split_lines(t.subrange(i + 1, t.len() as int))
            } else {
                Seq::empty()
            },
        }
    }
}

/// One trailing line terminator (a line feed, with a carriage return
/// before it if present) removed; a line without one is unchanged.
pub open spec fn strip_terminator_spec(l: Seq<char>) -> Seq<char> {
    if l.len() > 0 && l.last() == '\n' {
        strip_cr(l.drop_last())
    } else {
        l
    }
}

/// Remove one trailing line terminator (`\n` or `\r\n`) from an owned
/// line, as a byte-stream reader must before handing the line over.
pub fn strip_terminator(line: String) -> (r: String)
    ensures
        r@ == strip_terminator_spec(line@),
{
    let s = line.as_str();
    let n = s.unicode_len();
    if n > 0 && s.get_char(n - 1) == '\n' {
        let end = if n > 1 && s.get_char(n - 2) == '\r' {
            n - 2
        } else {
            n - 1
        };
        let r = s.substring_char(0, end).to_owned();
        proof {
            assert(line@.drop_last() =~= line@.subrange(0, n - 1));
            if n > 1 && line@[n - 2] == '\r' {
                assert(line@.drop_last().drop_last() =~= line@.subrange(0, n - 2));
            }
        }
        r
    } else {
        line
    }
}

/// A source of logical lines. `None` signals end of input; an error is
/// always an I/O report, which precedes line numbering. A source over a
/// byte stream may block in this call; an in-memory source cannot fail.
///
/// Each source models the logical lines it has yet to produce: a pull
/// hands over the head of that sequence, end of input means it is empty,
/// and an I/O failure leaves it unconstrained (a stream may fail at any
/// point).
pub trait LineReader {
    /// The logical lines still to come. A verified source overrides this
    /// with its real model; a source implemented outside the verifier
    /// inherits this default, and what its pulls return is trusted, not
    /// checked.
    open spec fn lines(&self) -> Seq<Seq<char>> {
        Seq::empty()
    }

    /// A source that can never fail: every pull is a line or end of
    /// input. In-memory sources are; byte-stream sources are not.
    open spec fn infallible(&self) -> bool {
        false
    }

    fn next_line(&mut self) -> (r: Option<Result<String, ParseError>>)
        ensures
            match r {
                None => old(self).lines().len() == 0 && final(self).lines() == old(
                    self,
                ).lines(),
                Some(Ok(l)) => old(self).lines().len() > 0 && l@ == old(self).lines()[0]
                    && final(self).lines() == old(self).lines().drop_first(),
                Some(Err(e)) => e.is_io() && !old(self).infallible(),
            },
    ;
}

/// The in-memory line source: walks a borrowed text and carves each line
/// out of it without copying the text itself.
pub struct StrLines<'a> {
    text: &'a str,
    pos: usize,
}

impl<'a> StrLines<'a> {
    /// The text not yet consumed (empty once the cursor passed the end).
    pub closed spec fn remaining(&self) -> Seq<char> {
        if self.pos <= self.text@.len() {
            self.text@.subrange(self.pos as int, self.text@.len() as int)
        } else {
            Seq::empty()
        }
    }

    /// A source over the whole of `text`.
    pub fn new(text: &'a str) -> (r: Self)
        ensures
            r.remaining() == text@,
            r.lines() == split_lines(text@),
    {
        let r = StrLines { text, pos: 0 };
        proof {
            assert(r.remaining() =~= text@);
        }
        r
    }
}

impl<'a> LineReader for StrLines<'a> {
    /// The lines still to be carved out of the unconsumed text.
    open spec fn lines(&self) -> Seq<Seq<char>> {
        split_lines(self.remaining())
    }

    /// Splitting an in-memory text cannot fail.
    open spec fn infallible(&self) -> bool {
        true
    }

    fn next_line(&mut self) -> (r: Option<Result<String, ParseError>>) {
        let n = self.text.unicode_len();
        if self.pos >= n {
            return None;
        }
        let ghost rem = self.remaining();
        match crate::text::find_char_in(self.text, self.pos, '\n') {
            None => {
                let piece = self.text.substring_char(self.pos, n);
                proof {
                    assert forall|j: int| 0 <= j < rem.len() implies rem[j] != '\n' by {
                        assert(rem[j] == self.text@[self.pos + j]);
                    }
                    lemma_find_char_none(rem, '\n');
                    assert(piece@ =~= rem);
                }
                self.pos = n;
                proof {
                    assert(self.remaining() =~= Seq::<char>::empty());
                }
                Some(Ok(piece.to_owned()))
            },
            Some(i) => {
                let end = if i > self.pos && self.text.get_char(i - 1) == '\r' {
                    i - 1
                } else {
                    i
                };
                let piece = self.text.substring_char(self.pos, end);
                let ghost p = self.pos as int;
                proof {
                    assert(rem[i - p] == self.text@[i as int]);
                    assert forall|j: int| 0 <= j < i - p implies rem[j] != '\n' by {
                        assert(rem[j] == self.text@[p + j]);
                    }
                    lemma_find_char_at(rem, '\n', i - p);
                    assert(rem.take(i - p) =~= self.text@.subrange(p, i as int));
                    if i > p && self.text@[i - 1] == '\r' {
                        assert(rem.take(i - p).last() == '\r');
                        assert(rem.take(i - p).drop_last() =~= self.text@.subrange(
                            p,
                            i - 1,
                        ));
                    }
                    assert(piece@ == strip_cr(rem.take(i - p)));
                }
                self.pos = i + 1;
                proof {
                    assert(self.remaining() =~= rem.subrange(i - p + 1, rem.len() as int));
                }
                Some(Ok(piece.to_owned()))
            },
        }
    }
}

/// Over the same content, a line terminated by a carriage return and line
/// feed, a line terminated by a line feed alone, and an unterminated
/// final line all carry the same text, for the in-memory splitter and for
/// the byte-stream terminator stripper alike.
pub proof fn lemma_terminator_equivalence(c: Seq<char>)
    requires
        forall|i: int| 0 <= i < c.len() ==> c[i] != '\n' && c[i] != '\r',
    ensures
        split_lines(c.push('\n')) == seq![c],
        split_lines(c + seq!['\r', '\n']) == seq![c],
        c.len() > 0 ==> split_lines(c) == seq![c],
        strip_terminator_spec(c.push('\n')) == c,
        strip_terminator_spec(c + seq!['\r', '\n']) == c,
        strip_terminator_spec(c) == c,
{
    let lf = c.push('\n');
    let crlf = c + seq!['\r', '\n'];
    assert(split_lines(Seq::<char>::empty()) =~= Seq::<Seq<char>>::empty());
    if c.len() > 0 {
        assert(c.last() != '\r');
    }
    assert(strip_cr(c) == c);

    lemma_find_char_at(lf, '\n', c.len() as int);
    assert(lf.take(c.len() as int) =~= c);
    assert(lf.subrange(c.len() as int + 1, lf.len() as int) =~= Seq::<char>::empty());
    assert(split_lines(lf) =~= seq![c]);

    lemma_find_char_at(crlf, '\n', c.len() as int + 1);
    assert(crlf.take(c.len() as int + 1) =~= c.push('\r'));
    assert(strip_cr(c.push('\r')) =~= c);
    assert(crlf.subrange(c.len() as int + 2, crlf.len() as int) =~= Seq::<char>::empty());
    assert(split_lines(crlf) =~= seq![c]);

    if c.len() > 0 {
        lemma_find_char_none(c, '\n');
        assert(split_lines(c) =~= seq![c]);
    }

    assert(lf.drop_last() =~= c);
    assert(crlf.drop_last() =~= c.push('\r'));
    assert(strip_terminator_spec(lf) == c);
    assert(strip_terminator_spec(crlf) =~= c);
}

} // verus!
