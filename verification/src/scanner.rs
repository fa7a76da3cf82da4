//! A cursor over the characters of a source text.

use vstd::prelude::*;
use crate::chars::push_char;

verus! {

/// The number of line feeds among the first `upto` characters of `s`.
pub open spec fn count_newlines(s: Seq<char>, upto: int) -> nat
    decreases upto,
{
    if upto <= 0 || upto > s.len() {
        0
    } else if s[upto - 1] == '\n' {
        count_newlines(s, upto - 1) + 1
    } else {
        count_newlines(s, upto - 1)
    }
}

/// The number of the line on which the position `at` of `s` stands: the
/// first line of a text has the number one, and every line feed before the
/// position adds one.
pub open spec fn line_number(s: Seq<char>, at: int) -> nat {
    1 + count_newlines(s, at)
}

/// Line feeds never outnumber the characters inspected.
pub proof fn lemma_count_newlines_bound(s: Seq<char>, upto: int)
    ensures
        upto >= 0 ==> count_newlines(s, upto) <= upto,
    decreases upto,
{
    if 0 < upto <= s.len() {
        lemma_count_newlines_bound(s, upto - 1);
    }
}

/// A source text together with the position of the next unread character.
pub struct Scanner {
    cursor: usize,
    characters: Vec<char>,
}

/// What a [`Scanner`] stands for: the whole text and how far it has been read.
pub struct ScannerView {
    pub characters: Seq<char>,
    pub cursor: int,
}

impl ScannerView {
    /// The character under the cursor, if the cursor is inside the text.
    pub open spec fn current(self) -> Option<char> {
        if 0 <= self.cursor < self.characters.len() {
            Some(self.characters[self.cursor])
        } else {
            None
        }
    }

    /// The same text with the cursor moved to `cursor`.
    pub open spec fn at(self, cursor: int) -> ScannerView {
        ScannerView { characters: self.characters, cursor }
    }
}

impl View for Scanner {
    type V = ScannerView;

    closed spec fn view(&self) -> ScannerView {
        ScannerView { characters: self.characters@, cursor: self.cursor as int }
    }
}

impl Scanner {
    /// Starts reading `characters` from the beginning.
    pub fn new(characters: Vec<char>) -> (s: Scanner)
        ensures
            s@ == (ScannerView { characters: characters@, cursor: 0 }),
    {
        Scanner { characters, cursor: 0 }
    }

    /// The position of the next unread character.
    pub fn cursor(&self) -> (c: usize)
        ensures
            c == self@.cursor,
    {
        self.cursor
    }

    /// The number of characters in the whole text.
    pub fn len(&self) -> (n: usize)
        ensures
            n == self@.characters.len(),
    {
        self.characters.len()
    }

    /// The next unread character, without consuming it.
    pub fn peek(&self) -> (r: Option<&char>)
        ensures
            r.is_some() == self@.current().is_some(),
            r.is_some() ==> *r.unwrap() == self@.current().unwrap(),
    {
        if self.cursor < self.characters.len() {
            Some(&self.characters[self.cursor])
        } else {
            None
        }
    }

    /// The character `len` places after the cursor, without consuming anything.
    pub fn peek_n(&self, len: usize) -> (r: Option<&char>)
        ensures
            r.is_some() == (self@.cursor + len < self@.characters.len()),
            r.is_some() ==> *r.unwrap() == self@.characters[self@.cursor + len],
    {
        if len < self.characters.len() && self.cursor < self.characters.len() - len {
            Some(&self.characters[self.cursor + len])
        } else {
            None
        }
    }

    /// True when the cursor stands exactly at the end of the text.
    pub fn is_done(&self) -> (b: bool)
        ensures
            b == (self@.cursor == self@.characters.len()),
    {
        self.cursor == self.characters.len()
    }

    /// Consumes and returns the next character; at the end nothing moves.
    pub fn pop(&mut self) -> (r: Option<&char>)
        ensures
            r.is_some() == old(self)@.current().is_some(),
            r.is_some() ==> *r.unwrap() == old(self)@.current().unwrap(),
            final(self)@ == old(self)@.at(
                if old(self)@.current().is_some() {
                    old(self)@.cursor + 1
                } else {
                    old(self)@.cursor
                },
            ),
        no_unwind
    {
        if self.cursor < self.characters.len() {
            let i = self.cursor;
            self.cursor += 1;
            Some(&self.characters[i])
        } else {
            None
        }
    }

    /// Moves the cursor forward by `n`, past the end if `n` says so.
    pub fn discard_n(&mut self, n: usize)
        requires
            old(self)@.cursor + n <= usize::MAX,
        ensures
            final(self)@ == old(self)@.at(old(self)@.cursor + n),
    {
        self.cursor += n;
    }

    /// Consumes the next character if it is `target`, and says whether it did.
    pub fn take(&mut self, target: &char) -> (taken: bool)
        ensures
            taken == (old(self)@.current() == Some(*target)),
            final(self)@ == old(self)@.at(
                if taken {
                    old(self)@.cursor + 1
                } else {
                    old(self)@.cursor
                },
            ),
    {
        if self.cursor < self.characters.len() && self.characters[self.cursor] == *target {
            self.cursor += 1;
            true
        } else {
            false
        }
    }

    /// Everything from the cursor to the end of the text.
    pub fn peek_rest(&self) -> (rest: String)
        ensures
            rest@ == (if self@.cursor <= self@.characters.len() {
                self@.characters.subrange(self@.cursor, self@.characters.len() as int)
            } else {
                Seq::<char>::empty()
            }),
    {
        let mut rest = String::new();
        let mut i: usize = self.cursor;
        while i < self.characters.len()
            invariant
                self.cursor <= i,
                i <= self.characters.len() || i == self.cursor,
                self.cursor <= self.characters.len() ==> rest@ == self.characters@.subrange(
                    self.cursor as int,
                    i as int,
                ),
                self.cursor > self.characters.len() ==> rest@ == Seq::<char>::empty(),
            decreases self.characters.len() - i,
        {
            push_char(&mut rest, self.characters[i]);
            assert(self.characters@.subrange(self.cursor as int, i + 1) =~= self.characters@.subrange(
                self.cursor as int,
                i as int,
            ).push(self.characters@[i as int]));
            i += 1;
        }
        proof {
            if self.cursor <= self.characters.len() {
                assert(i == self.characters.len());
            }
        }
        rest
    }

    /// The characters from `from` up to, not including, `to`.
    pub fn slice(&self, from: usize, to: usize) -> (text: String)
        requires
            from <= to <= self@.characters.len(),
        ensures
            text@ == self@.characters.subrange(from as int, to as int),
    {
        let mut text = String::new();
        let mut i: usize = from;
        while i < to
            invariant
                from <= i <= to <= self.characters.len(),
                text@ == self.characters@.subrange(from as int, i as int),
            decreases to - i,
        {
            push_char(&mut text, self.characters[i]);
            assert(self.characters@.subrange(from as int, i + 1) =~= self.characters@.subrange(
                from as int,
                i as int,
            ).push(self.characters@[i as int]));
            i += 1;
        }
        text
    }

    /// Reads the signed 16-bit decimal numeral that fills `from..to`.
    pub fn number(&self, from: usize, to: usize) -> (r: Option<i16>)
        requires
            from <= to <= self@.characters.len(),
        ensures
            r == crate::chars::parse_i16(self@.characters.subrange(from as int, to as int)),
    {
        crate::chars::read_i16(&self.characters, from, to)
    }

    /// The number of the line on which the position `pos` stands, or the end
    /// of the text if `pos` lies behind it. Lines are numbered from one.
    /// The number has to fit the machine word, which it does for every
    /// position inside the text and for every text that does not fill the
    /// whole address space.
    pub fn line_at(&self, pos: usize) -> (n: usize)
        requires
            pos < self@.characters.len() || self@.characters.len() < usize::MAX,
        ensures
            n == line_number(
                self@.characters,
                if pos <= self@.characters.len() {
                    pos as int
                } else {
                    self@.characters.len() as int
                },
            ),
    {
        let end: usize = if pos <= self.characters.len() {
            pos
        } else {
            self.characters.len()
        };
        let mut n: usize = 1;
        let mut i: usize = 0;
        while i < end
            invariant
                i <= end <= self.characters.len(),
                end < self.characters.len() || self.characters.len() < usize::MAX,
                n == line_number(self.characters@, i as int),
                n <= i + 1,
            decreases end - i,
        {
            if self.characters[i] == '\n' {
                n += 1;
            }
            i += 1;
        }
        n
    }

    /// The number of the line on which the cursor stands: one more than the
    /// number of line feeds that have been read so far. The number has to
    /// fit the machine word: see [`Scanner::line_at`].
    pub fn line(&self) -> (n: usize)
        requires
            self@.cursor < self@.characters.len() || self@.characters.len() < usize::MAX,
        ensures
            n == line_number(
                self@.characters,
                if self@.cursor <= self@.characters.len() {
                    self@.cursor
                } else {
                    self@.characters.len() as int
                },
            ),
    {
        self.line_at(self.cursor)
    }
}

} // verus!
