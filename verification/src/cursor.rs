//! A mutable view over the source text with checkpoint/restore support.
//!
//! The cursor owns the full source text, kept immutable for the whole parse,
//! and a current character offset.  The offset is always a valid index into
//! the text or equal to its length (end of input).  A checkpoint records the
//! offset before a rule is attempted and is restored when the rule fails.

use vstd::prelude::*;
use vstd::string::StrSliceExecFns;
use crate::ast::ParseError;

verus! {

/// Whitespace as the grammar sees it: spaces and newlines (including the
/// carriage return and tab).
pub open spec fn is_space_char(c: char) -> bool {
    c == ' ' || c == '\n' || c == '\t' || c == '\r'
}

/// An ASCII decimal digit.
pub open spec fn is_digit_char(c: char) -> bool {
    c == '0' || c == '1' || c == '2' || c == '3' || c == '4' || c == '5' || c == '6' || c == '7'
        || c == '8' || c == '9'
}

/// The numeric value of an ASCII decimal digit, and 0 on anything else.
pub open spec fn digit_value(c: char) -> int {
    match c {
        '0' => 0,
        '1' => 1,
        '2' => 2,
        '3' => 3,
        '4' => 4,
        '5' => 5,
        '6' => 6,
        '7' => 7,
        '8' => 8,
        '9' => 9,
        _ => 0,
    }
}

/// The character at `pos`, or `None` at or past the end of the text.
pub open spec fn peek_at(text: Seq<char>, pos: int) -> Option<char> {
    if 0 <= pos < text.len() {
        Some(text[pos])
    } else {
        None
    }
}

/// The offset reached by skipping whitespace from `pos`.
pub open spec fn skip_ws_from(text: Seq<char>, pos: int) -> int
    decreases text.len() - pos,
    when 0 <= pos <= text.len()
{
    if pos < text.len() && is_space_char(text[pos]) {
        skip_ws_from(text, pos + 1)
    } else {
        pos
    }
}

/// Skipping whitespace never moves backwards and never passes the end.
pub proof fn lemma_skip_ws_bounds(text: Seq<char>, pos: int)
    requires
        0 <= pos <= text.len(),
    ensures
        pos <= skip_ws_from(text, pos) <= text.len(),
    decreases text.len() - pos,
{
    if pos < text.len() && is_space_char(text[pos]) {
        lemma_skip_ws_bounds(text, pos + 1);
    }
}

/// The word `w` stands at `pos` in `text`, character for character.
pub open spec fn word_at(text: Seq<char>, pos: int, w: Seq<char>) -> bool {
    &&& 0 <= pos
    &&& pos + w.len() <= text.len()
    &&& forall|i: int| 0 <= i < w.len() ==> text[pos + i] == w[i]
}

/// The lowercase counterpart of an ASCII uppercase letter; any other
/// character is left as it is.
pub open spec fn lower_char(c: char) -> char {
    match c {
        'A' => 'a',
        'B' => 'b',
        'C' => 'c',
        'D' => 'd',
        'E' => 'e',
        'F' => 'f',
        'G' => 'g',
        'H' => 'h',
        'I' => 'i',
        'J' => 'j',
        'K' => 'k',
        'L' => 'l',
        'M' => 'm',
        'N' => 'n',
        'O' => 'o',
        'P' => 'p',
        'Q' => 'q',
        'R' => 'r',
        'S' => 's',
        'T' => 't',
        'U' => 'u',
        'V' => 'v',
        'W' => 'w',
        'X' => 'x',
        'Y' => 'y',
        'Z' => 'z',
        _ => c,
    }
}

/// The word `w` stands at `pos` in `text` up to ASCII case.
pub open spec fn word_at_ci(text: Seq<char>, pos: int, w: Seq<char>) -> bool {
    &&& 0 <= pos
    &&& pos + w.len() <= text.len()
    &&& forall|i: int| 0 <= i < w.len() ==> lower_char(text[pos + i]) == w[i]
}

/// An opaque snapshot of the cursor's offset.  Restoring it is a pure
/// assignment; no other cursor state exists.
#[derive(Clone, Copy, Debug)]
pub struct SavePoint {
    saved: usize,
}

impl SavePoint {
    /// The offset recorded in the snapshot.
    pub closed spec fn offset(self) -> int {
        self.saved as int
    }
}

/// The mutable view over the source text.
#[derive(Debug)]
pub struct Cursor {
    text: Vec<char>,
    pos: usize,
}

impl Cursor {
    /// The full source text, as a sequence of characters.
    pub closed spec fn text(&self) -> Seq<char> {
        self.text@
    }

    /// The current offset.
    pub closed spec fn pos(&self) -> int {
        self.pos as int
    }

    /// The cursor invariant: the offset is a valid index or the text length.
    pub open spec fn wf(&self) -> bool {
        0 <= self.pos() <= self.text().len()
    }

    /// A fresh cursor over `input`, standing at the first character.
    pub fn new(input: &str) -> (c: Cursor)
        ensures
            c.text() == input@,
            c.pos() == 0,
            c.wf(),
    {
        let n = input.unicode_len();
        let mut chars: Vec<char> = Vec::new();
        let mut i: usize = 0;
        while i < n
            invariant
                n == input@.len(),
                0 <= i <= n,
                chars@ == input@.subrange(0, i as int),
            decreases n - i,
        {
            let ch = input.get_char(i);
            chars.push(ch);
            i = i + 1;
            proof {
                assert(chars@ =~= input@.subrange(0, i as int));
            }
        }
        proof {
            assert(chars@ =~= input@);
        }
        Cursor { text: chars, pos: 0 }
    }

    /// The current offset, as a count of characters consumed.
    pub fn offset(&self) -> (r: usize)
        ensures
            r as int == self.pos(),
    {
        self.pos
    }

    /// True exactly when the offset stands at the end of the text.
    pub fn finished(&self) -> (r: bool)
        requires
            self.wf(),
        ensures
            r == (self.pos() == self.text().len()),
    {
        self.pos == self.text.len()
    }

    /// The next character without consuming it, for error messages.
    pub fn get_next_char(&self) -> (r: Option<char>)
        requires
            self.wf(),
        ensures
            r == peek_at(self.text(), self.pos()),
    {
        if self.pos < self.text.len() {
            Some(self.text[self.pos])
        } else {
            None
        }
    }

    /// Records the current offset so a failed rule can back out.
    pub fn create_save_point(&self) -> (p: SavePoint)
        ensures
            p.offset() == self.pos(),
    {
        SavePoint { saved: self.pos }
    }

    /// Restores the offset recorded at `p`, regardless of any consumption in
    /// between.
    pub fn load_save_point(&mut self, p: SavePoint)
        requires
            old(self).wf(),
            0 <= p.offset() <= old(self).text().len(),
        ensures
            final(self).text() == old(self).text(),
            final(self).pos() == p.offset(),
            final(self).wf(),
    {
        self.pos = p.saved;
    }

    /// Consumes exactly one occurrence of `c` at the current offset, skipping
    /// no leading whitespace; fails without side effect otherwise.
    pub fn skip_char(&mut self, c: char) -> (r: Result<(), ParseError>)
        requires
            old(self).wf(),
        ensures
            final(self).text() == old(self).text(),
            final(self).wf(),
            peek_at(old(self).text(), old(self).pos()) == Some(c) ==> r is Ok && final(self).pos()
                == old(self).pos() + 1,
            peek_at(old(self).text(), old(self).pos()) != Some(c) ==> r == Result::<(),
            ParseError>::Err(
                ParseError::ExpectedChar(c, peek_at(old(self).text(), old(self).pos())),
            ) && final(self).pos() == old(self).pos(),
    {
        if self.pos < self.text.len() {
            let found = self.text[self.pos];
            if found == c {
                self.pos = self.pos + 1;
                return Ok(());
            }
            return Err(ParseError::ExpectedChar(c, Some(found)));
        }
        Err(ParseError::ExpectedChar(c, None))
    }

    /// Consumes the literal word `w` at the current offset, or fails without
    /// side effect.
    pub fn skip_word(&mut self, w: &Vec<char>) -> (r: Result<(), ParseError>)
        requires
            old(self).wf(),
        ensures
            final(self).text() == old(self).text(),
            final(self).wf(),
            word_at(old(self).text(), old(self).pos(), w@) ==> r is Ok && final(self).pos()
                == old(self).pos() + w@.len(),
            !word_at(old(self).text(), old(self).pos(), w@) ==> r == Result::<(),
            ParseError>::Err(ParseError::ExpectedWord(peek_at(old(self).text(), old(self).pos())))
                && final(self).pos() == old(self).pos(),
    {
        if w.len() > self.text.len() || self.pos > self.text.len() - w.len() {
            return Err(ParseError::ExpectedWord(self.get_next_char()));
        }
        let mut i: usize = 0;
        while i < w.len()
            invariant
                self == old(self),
                self.wf(),
                self.pos() + w@.len() <= self.text().len(),
                0 <= i <= w@.len(),
                forall|j: int| 0 <= j < i ==> self.text()[self.pos() + j] == w@[j],
            decreases w@.len() - i,
        {
            proof {
                assert(self.text@.len() == self.text.len());
            }
            if self.text[self.pos + i] != w[i] {
                return Err(ParseError::ExpectedWord(self.get_next_char()));
            }
            i = i + 1;
        }
        self.pos = self.pos + w.len();
        Ok(())
    }

    /// Case-insensitive lookahead of `w.len()` characters without consuming;
    /// the caller advances separately.
    pub fn match_word_ci(&self, w: &Vec<char>) -> (r: bool)
        requires
            self.wf(),
        ensures
            r == word_at_ci(self.text(), self.pos(), w@),
    {
        if w.len() > self.text.len() || self.pos > self.text.len() - w.len() {
            return false;
        }
        let mut i: usize = 0;
        while i < w.len()
            invariant
                self.wf(),
                self.pos() + w@.len() <= self.text().len(),
                0 <= i <= w@.len(),
                forall|j: int| 0 <= j < i ==> lower_char(self.text()[self.pos() + j]) == w@[j],
            decreases w@.len() - i,
        {
            proof {
                assert(self.text@.len() == self.text.len());
            }
            let c = self.text[self.pos + i];
            let lowered = lower_char_exec(c);
            if lowered != w[i] {
                return false;
            }
            i = i + 1;
        }
        true
    }

    /// Advances the offset by exactly `n` characters.
    pub fn skip_x_chars(&mut self, n: usize)
        requires
            old(self).wf(),
            old(self).pos() + n <= old(self).text().len(),
        ensures
            final(self).text() == old(self).text(),
            final(self).pos() == old(self).pos() + n,
            final(self).wf(),
    {
        proof {
            assert(self.text@.len() == self.text.len());
        }
        self.pos = self.pos + n;
    }

    /// Consumes and returns one ASCII digit, or fails without side effect.
    pub fn pop_next_char_numerical(&mut self) -> (r: Result<char, ParseError>)
        requires
            old(self).wf(),
        ensures
            final(self).text() == old(self).text(),
            final(self).wf(),
            ({
                let nxt = peek_at(old(self).text(), old(self).pos());
                let p0 = old(self).pos();
                let p1 = final(self).pos();
                if nxt is Some && is_digit_char(nxt->0) {
                    r == Result::<char, ParseError>::Ok(nxt->0) && p1 == p0 + 1
                } else {
                    r == Result::<char, ParseError>::Err(ParseError::ExpectedDigit(nxt)) && p1 == p0
                }
            }),
    {
        if self.pos < self.text.len() {
            let found = self.text[self.pos];
            if found >= '0' && found <= '9' {
                self.pos = self.pos + 1;
                return Ok(found);
            }
            return Err(ParseError::ExpectedDigit(Some(found)));
        }
        Err(ParseError::ExpectedDigit(None))
    }

    /// Consumes zero or more whitespace characters; cannot fail.
    pub fn skip_spaces_and_newlines(&mut self)
        requires
            old(self).wf(),
        ensures
            final(self).text() == old(self).text(),
            final(self).pos() == skip_ws_from(old(self).text(), old(self).pos()),
            final(self).wf(),
            old(self).pos() <= final(self).pos(),
    {
        proof {
            lemma_skip_ws_bounds(self.text(), self.pos());
        }
        while self.pos < self.text.len() && is_space_char_exec(self.text[self.pos])
            invariant
                self.wf(),
                self.text() == old(self).text(),
                old(self).pos() <= self.pos(),
                skip_ws_from(old(self).text(), old(self).pos()) == skip_ws_from(
                    self.text(),
                    self.pos(),
                ),
            decreases self.text().len() - self.pos(),
        {
            self.pos = self.pos + 1;
        }
    }
}

/// Exec counterpart of [`is_space_char`].
pub fn is_space_char_exec(c: char) -> (r: bool)
    ensures
        r == is_space_char(c),
{
    c == ' ' || c == '\n' || c == '\t' || c == '\r'
}

/// Exec counterpart of [`lower_char`].
pub fn lower_char_exec(c: char) -> (r: char)
    ensures
        r == lower_char(c),
{
    match c {
        'A' => 'a',
        'B' => 'b',
        'C' => 'c',
        'D' => 'd',
        'E' => 'e',
        'F' => 'f',
        'G' => 'g',
        'H' => 'h',
        'I' => 'i',
        'J' => 'j',
        'K' => 'k',
        'L' => 'l',
        'M' => 'm',
        'N' => 'n',
        'O' => 'o',
        'P' => 'p',
        'Q' => 'q',
        'R' => 'r',
        'S' => 's',
        'T' => 't',
        'U' => 'u',
        'V' => 'v',
        'W' => 'w',
        'X' => 'x',
        'Y' => 'y',
        'Z' => 'z',
        _ => c,
    }
}

/// The numeric value of an ASCII digit; exec counterpart of [`digit_value`].
pub fn digit_value_exec(c: char) -> (r: i64)
    requires
        is_digit_char(c),
    ensures
        r == digit_value(c),
        0 <= r <= 9,
{
    match c {
        '0' => 0,
        '1' => 1,
        '2' => 2,
        '3' => 3,
        '4' => 4,
        '5' => 5,
        '6' => 6,
        '7' => 7,
        '8' => 8,
        _ => 9,
    }
}

} // verus!
