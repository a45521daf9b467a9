//! A cursor over the characters of the source, and the errors of compilation.

use vstd::prelude::*;

verus! {

/// Why a source text is no expression.
#[derive(Debug, Clone, Copy, PartialEq, Eq)]
pub enum ParserError {
    /// The character that was needed at the position was not there.
    ExpectedChar(usize, char),
    /// The text that was needed at the position was not there.
    ExpectedStr(usize, &'static str),
    /// What was needed at the position, named by its kind, was not there.
    ExpectedToken(usize, &'static str),
    /// An operator at the position lacks an operand.
    MissingOperand(usize),
    /// More than one value was left when the operators had taken their operands.
    DanglingValue,
    /// An operand was needed and none was left.
    NoValue,
}

/// The source, and how far it has been read.
pub struct ParserState<'a> {
    /// The characters of the source, whitespace left out.
    pub source: &'a [char],
    /// The position of the cursor: how many characters have been read.
    pub pos: usize,
}

/// Whether `char::is_alphabetic` holds of a character beyond ASCII.
pub uninterp spec fn alphabetic_beyond_ascii(c: char) -> bool;

/// Whether `char::is_whitespace` holds of a character beyond ASCII.
pub uninterp spec fn whitespace_beyond_ascii(c: char) -> bool;

/// An alphabetic character: in ASCII the letters, beyond ASCII what Unicode
/// calls `Alphabetic`.
pub open spec fn char_is_alphabetic(c: char) -> bool {
    if c <= '\u{7f}' {
        ('a' <= c && c <= 'z') || ('A' <= c && c <= 'Z')
    } else {
        alphabetic_beyond_ascii(c)
    }
}

/// Whitespace: in ASCII the blank and the characters from U+0009 to U+000D,
/// beyond ASCII what Unicode calls `White_Space`.
pub open spec fn char_is_whitespace(c: char) -> bool {
    if c <= '\u{7f}' {
        c == ' ' || ('\u{9}' <= c && c <= '\u{d}')
    } else {
        whitespace_beyond_ascii(c)
    }
}

/// `char::is_alphabetic`: whether the character has the Unicode property
/// `Alphabetic`, which in ASCII the letters have and no other character. The
/// answer depends on the character alone.
#[verifier::external_body]
pub(crate) fn is_alphabetic(c: char) -> (r: bool)
    ensures
        c <= '\u{7f}' ==> r == (('a' <= c && c <= 'z') || ('A' <= c && c <= 'Z')),
        c > '\u{7f}' ==> r == alphabetic_beyond_ascii(c),
{
    c.is_alphabetic()
}

/// `char::is_whitespace`: whether the character has the Unicode property
/// `White_Space`, which in ASCII the blank and U+0009 to U+000D have and no
/// other character. The answer depends on the character alone.
#[verifier::external_body]
pub(crate) fn is_whitespace(c: char) -> (r: bool)
    ensures
        c <= '\u{7f}' ==> r == (c == ' ' || ('\u{9}' <= c && c <= '\u{d}')),
        c > '\u{7f}' ==> r == whitespace_beyond_ascii(c),
{
    c.is_whitespace()
}

/// The character at `pos`, if the source reaches that far.
pub open spec fn char_at(source: Seq<char>, pos: int) -> Option<char> {
    if 0 <= pos < source.len() {
        Some(source[pos])
    } else {
        None
    }
}

/// How many characters from `pos` on satisfy `accept`, up to the first that does not.
pub open spec fn run_len(source: Seq<char>, pos: int, accept: spec_fn(char) -> bool) -> nat
    decreases source.len() - pos,
{
    if 0 <= pos < source.len() && accept(source[pos]) {
        1 + run_len(source, pos + 1, accept)
    } else {
        0
    }
}

/// A run that `accept` holds of throughout, and that ends where the source ends or
/// `accept` fails, is the run that `run_len` measures.
pub proof fn lemma_run_len(source: Seq<char>, pos: int, n: nat, accept: spec_fn(char) -> bool)
    requires
        0 <= pos,
        pos + n <= source.len(),
        forall|i: int| pos <= i < pos + n ==> accept(#[trigger] source[i]),
        pos + n == source.len() || !accept(source[pos + n]),
    ensures
        run_len(source, pos, accept) == n,
    decreases n,
{
    if n > 0 {
        lemma_run_len(source, pos + 1, (n - 1) as nat, accept);
    }
}

impl<'a> ParserState<'a> {
    /// The character under the cursor.
    pub open spec fn peek_spec(&self) -> Option<char> {
        char_at(self.source@, self.pos as int)
    }

    /// The character under the cursor, which stays where it is.
    pub fn peek(&self) -> (r: Option<char>)
        ensures
            r == self.peek_spec(),
    {
        if self.pos < self.source.len() {
            Some(self.source[self.pos])
        } else {
            None
        }
    }

    /// The character under the cursor, which moves on by one: also where the
    /// source has ended.
    pub fn advance(&mut self) -> (r: Option<char>)
        requires
            old(self).pos < usize::MAX,
        ensures
            r == old(self).peek_spec(),
            final(self).pos == old(self).pos + 1,
            final(self).source == old(self).source,
    {
        let c = self.peek();
        self.pos = self.pos + 1;
        c
    }

    /// Moves the cursor on by one, and fails unless it was on `c`. The failure
    /// names the position at which `c` was missing: where the cursor was.
    pub fn assert_char(&mut self, c: char) -> (r: Result<(), ParserError>)
        requires
            old(self).pos < usize::MAX,
        ensures
            final(self).pos == old(self).pos + 1,
            final(self).source == old(self).source,
            r == if old(self).peek_spec() == Some(c) {
                Ok::<(), ParserError>(())
            } else {
                Err::<(), ParserError>(ParserError::ExpectedChar(old(self).pos, c))
            },
    {
        let at: usize = self.pos;
        let got = self.advance();
        match got {
            Some(d) => {
                if d == c {
                    return Ok(());
                }
            },
            None => {},
        }
        Err(ParserError::ExpectedChar(at, c))
    }

    /// Moves the cursor over `c` if it is on it, and says whether it was.
    pub fn check_char(&mut self, c: char) -> (r: bool)
        ensures
            r == (old(self).peek_spec() == Some(c)),
            final(self).pos == if r {
                old(self).pos + 1
            } else {
                old(self).pos as int
            },
            final(self).source == old(self).source,
    {
        if self.pos < self.source.len() && self.source[self.pos] == c {
            self.pos = self.pos + 1;
            true
        } else {
            false
        }
    }

    /// Takes the longest run of characters that `filter` accepts, and moves the
    /// cursor behind it. An empty run is a failure that names the kind of token
    /// and leaves the cursor where it was.
    pub fn take_while<F: Fn(char) -> bool>(&mut self, token_type: &'static str, filter: F) -> (r:
        Result<Vec<char>, ParserError>)
        requires
            forall|c: char| call_requires(filter, (c,)),
        ensures
            final(self).source == old(self).source,
            old(self).pos <= final(self).pos,
            final(self).pos == old(self).pos || final(self).pos <= old(self).source.len(),
            forall|i: int|
                old(self).pos <= i < final(self).pos ==> call_ensures(
                    filter,
                    (#[trigger] old(self).source@[i],),
                    true,
                ),
            final(self).pos < old(self).source.len() ==> call_ensures(
                filter,
                (old(self).source@[final(self).pos as int],),
                false,
            ),
            match r {
                Ok(run) => final(self).pos > old(self).pos && run@ == old(self).source@.subrange(
                    old(self).pos as int,
                    final(self).pos as int,
                ),
                Err(e) => final(self).pos == old(self).pos && e == ParserError::ExpectedToken(
                    old(self).pos,
                    token_type,
                ),
            },
    {
        let start: usize = self.pos;
        if start >= self.source.len() {
            return Err(ParserError::ExpectedToken(start, token_type));
        }
        let mut collected: Vec<char> = Vec::new();
        while self.pos < self.source.len()
            invariant
                self.source == old(self).source,
                start == old(self).pos,
                start <= self.pos <= self.source.len(),
                forall|c: char| call_requires(filter, (c,)),
                forall|i: int|
                    start <= i < self.pos ==> call_ensures(filter, (#[trigger] self.source@[i],), true),
                collected@ == self.source@.subrange(start as int, self.pos as int),
            ensures
                self.pos < self.source.len() ==> call_ensures(
                    filter,
                    (self.source@[self.pos as int],),
                    false,
                ),
            decreases self.source.len() - self.pos,
        {
            let c: char = self.source[self.pos];
            if !filter(c) {
                break ;
            }
            collected.push(c);
            self.pos = self.pos + 1;
            assert(collected@ == self.source@.subrange(start as int, self.pos as int));
        }
        if collected.len() > 0 {
            Ok(collected)
        } else {
            Err(ParserError::ExpectedToken(self.pos, token_type))
        }
    }
}

} // verus!
