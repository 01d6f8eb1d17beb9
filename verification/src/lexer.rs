//! The executable scanner, verified against the model in [`crate::scan`].
//!
//! A [`Lexer`] owns the source buffer and a cursor (character offset plus
//! line/column). Repeated calls of [`Lexer::get_next_token`] walk the buffer
//! left to right and hand out one token per call until the end-of-input
//! token; an unrecognized character stops the scan with an error.

use crate::error::TError;
use crate::location::SourceLocation;
use crate::scan::all_digits;
use crate::scan::all_numeric;
use crate::scan::col_at;
use crate::scan::is_alpha_char;
use crate::scan::is_digit_char;
use crate::scan::is_skip_char;
use crate::scan::is_word_char;
use crate::scan::lemma_line_col_bounds;
use crate::scan::lemma_skip_len_bounds;
use crate::scan::line_at;
use crate::scan::run_len;
use crate::scan::scan_at;
use crate::scan::skip_len;
use crate::scan::word_len;
use crate::token::LexerToken;
use crate::token::LexerTokenType;
use vstd::prelude::*;
use vstd::string::*;

verus! {

/// Every character of `t` is a decimal digit, decided character by character.
fn all_chars_digits(t: &str) -> (r: bool)
    ensures
        r == all_digits(t@),
{
    let n = t.unicode_len();
    let mut i: usize = 0;
    while i < n
        invariant
            i <= n,
            n == t@.len(),
            forall|j: int| 0 <= j < i ==> is_digit_char(t@[j]),
        decreases n - i,
    {
        let c = t.get_char(i);
        if !Lexer::is_integer(c) {
            return false;
        }
        i = i + 1;
    }
    true
}

/// Every character of `t` is a decimal digit or `.`, decided character by
/// character.
fn all_chars_numeric(t: &str) -> (r: bool)
    ensures
        r == all_numeric(t@),
{
    let n = t.unicode_len();
    let mut i: usize = 0;
    while i < n
        invariant
            i <= n,
            n == t@.len(),
            forall|j: int| 0 <= j < i ==> is_digit_char(t@[j]) || t@[j] == '.',
        decreases n - i,
    {
        let c = t.get_char(i);
        if !Lexer::is_numeric(c) {
            return false;
        }
        i = i + 1;
    }
    true
}

/// The scanner: the source buffer, the cursor as a character offset, and
/// the line/column position of the next character to be read.
pub struct Lexer {
    data: String,
    pos: usize,
    line: usize,
    col: usize,
}

impl Lexer {
    /// The source buffer as a sequence of characters, for specifications.
    pub closed spec fn src(&self) -> Seq<char> {
        self.data@
    }

    /// How many characters have been consumed, for specifications.
    pub closed spec fn cursor(&self) -> int {
        self.pos as int
    }

    /// The cursor lies inside the buffer, the buffer leaves headroom for
    /// the position counters, and the stored line/column agree with the
    /// model's bookkeeping at the cursor.
    pub closed spec fn wf(&self) -> bool {
        &&& self.pos <= self.data@.len()
        &&& self.data@.len() < usize::MAX
        &&& self.line == line_at(self.data@, self.pos as int)
        &&& self.col == col_at(self.data@, self.pos as int)
    }

    /// A fresh scanner over `data`, with the cursor at the first character,
    /// which is on line 1, column 1.
    pub fn new(data: String) -> (r: Lexer)
        requires
            data@.len() < usize::MAX,
        ensures
            r.wf(),
            r.src() == data@,
            r.cursor() == 0,
    {
        Lexer { data, pos: 0, line: 1, col: 1 }
    }

    /// The line/column position of the next character that will be read.
    pub fn current_location(&self) -> (r: SourceLocation)
        requires
            self.wf(),
        ensures
            r.spec_line() == line_at(self.src(), self.cursor()),
            r.spec_col() == col_at(self.src(), self.cursor()),
    {
        SourceLocation::new(self.line, self.col)
    }

    /// Consumes one character, keeping the line/column bookkeeping in step:
    /// a newline moves to the next line and resets the column to 1, any
    /// other character advances the column by one.
    fn next_char(&mut self) -> (r: Option<char>)
        requires
            old(self).wf(),
        ensures
            final(self).wf(),
            final(self).src() == old(self).src(),
            old(self).cursor() < old(self).src().len() ==> {
                &&& r == Some(old(self).src()[old(self).cursor()])
                &&& final(self).cursor() == old(self).cursor() + 1
            },
            old(self).cursor() >= old(self).src().len() ==> {
                &&& r is None
                &&& final(self).cursor() == old(self).cursor()
            },
    {
        if self.pos >= self.data.as_str().unicode_len() {
            return None;
        }
        let c = self.data.as_str().get_char(self.pos);
        proof {
            lemma_line_col_bounds(self.data@, self.pos as int);
        }
        if c == '\n' {
            self.line = self.line + 1;
            self.col = 1;
        } else {
            self.col = self.col + 1;
        }
        self.pos = self.pos + 1;
        Some(c)
    }

    /// The character at the cursor, without consuming it.
    fn peek_next_char(&self) -> (r: Option<char>)
        requires
            self.wf(),
        ensures
            self.cursor() < self.src().len() ==> r == Some(self.src()[self.cursor()]),
            self.cursor() >= self.src().len() ==> r is None,
    {
        if self.pos >= self.data.as_str().unicode_len() {
            None
        } else {
            Some(self.data.as_str().get_char(self.pos))
        }
    }

    /// True of a decimal digit.
    pub fn is_integer(c: char) -> (r: bool)
        ensures
            r == is_digit_char(c),
    {
        '0' <= c && c <= '9'
    }

    /// True of a decimal digit or `.`.
    pub fn is_numeric(c: char) -> (r: bool)
        ensures
            r == (is_digit_char(c) || c == '.'),
    {
        Lexer::is_integer(c) || c == '.'
    }

    /// True of an ASCII letter.
    pub fn is_alpha(c: char) -> (r: bool)
        ensures
            r == is_alpha_char(c),
    {
        ('a' <= c && c <= 'z') || ('A' <= c && c <= 'Z')
    }

    /// Consumes the spaces and tabs at the cursor, leaving it on the first
    /// character that is not skipped whitespace.
    fn consume_whitespace(&mut self)
        requires
            old(self).wf(),
        ensures
            final(self).wf(),
            final(self).src() == old(self).src(),
            final(self).cursor() == old(self).cursor() + skip_len(
                old(self).src(),
                old(self).cursor(),
            ),
    {
        let ghost orig = *self;
        loop
            invariant
                self.wf(),
                self.src() == orig.src(),
                orig.cursor() <= self.cursor(),
                orig.cursor() + skip_len(orig.src(), orig.cursor()) == self.cursor() + skip_len(
                    self.src(),
                    self.cursor(),
                ),
            ensures
                self.wf(),
                self.src() == orig.src(),
                orig.cursor() + skip_len(orig.src(), orig.cursor()) == self.cursor() + skip_len(
                    self.src(),
                    self.cursor(),
                ),
                self.cursor() >= self.src().len() || !is_skip_char(self.src()[self.cursor()]),
            decreases self.src().len() - self.cursor(),
        {
            let c = match self.peek_next_char() {
                Some(c) => c,
                None => { break },
            };
            if c == ' ' || c == '\t' {
                self.next_char();
            } else {
                break;
            }
        }
    }

    /// Consumes the rest of the word run that begins at `from`, whose first
    /// character has already been consumed, and returns the whole run's
    /// text.
    fn next_valid_sequences(&mut self, from: usize) -> (r: String)
        requires
            old(self).wf(),
            from < old(self).src().len(),
            is_word_char(old(self).src()[from as int]),
            old(self).cursor() == from + 1,
        ensures
            final(self).wf(),
            final(self).src() == old(self).src(),
            final(self).cursor() == from + word_len(old(self).src(), from as int),
            r@ == old(self).src().subrange(from as int, final(self).cursor()),
    {
        let ghost orig = *self;
        loop
            invariant
                self.wf(),
                self.src() == orig.src(),
                from < self.cursor() <= self.src().len(),
                from + word_len(self.src(), from as int) == self.cursor() + word_len(
                    self.src(),
                    self.cursor(),
                ),
            ensures
                self.wf(),
                self.src() == orig.src(),
                from < self.cursor() <= self.src().len(),
                from + word_len(self.src(), from as int) == self.cursor() + word_len(
                    self.src(),
                    self.cursor(),
                ),
                self.cursor() >= self.src().len() || !is_word_char(self.src()[self.cursor()]),
            decreases self.src().len() - self.cursor(),
        {
            let c = match self.peek_next_char() {
                Some(c) => c,
                None => { break },
            };
            if Lexer::is_alpha(c) || Lexer::is_numeric(c) {
                self.next_char();
            } else {
                break;
            }
        }
        let text = self.data.as_str().substring_char(from, self.pos);
        String::from_str(text)
    }

    /// Consumes the rest of the run of copies of `ch` that begins at
    /// `start_pos`, whose first copy has already been consumed, and returns
    /// the whole run's text.
    #[allow(dead_code)]
    fn fetch_consecutive(&mut self, start_pos: usize, ch: char) -> (r: String)
        requires
            old(self).wf(),
            start_pos < old(self).src().len(),
            old(self).src()[start_pos as int] == ch,
            old(self).cursor() == start_pos + 1,
        ensures
            final(self).wf(),
            final(self).src() == old(self).src(),
            final(self).cursor() == start_pos + run_len(old(self).src(), start_pos as int, ch),
            r@ == old(self).src().subrange(start_pos as int, final(self).cursor()),
    {
        let ghost orig = *self;
        loop
            invariant
                self.wf(),
                self.src() == orig.src(),
                start_pos < self.cursor() <= self.src().len(),
                start_pos + run_len(self.src(), start_pos as int, ch) == self.cursor() + run_len(
                    self.src(),
                    self.cursor(),
                    ch,
                ),
            ensures
                self.wf(),
                self.src() == orig.src(),
                start_pos < self.cursor() <= self.src().len(),
                start_pos + run_len(self.src(), start_pos as int, ch) == self.cursor() + run_len(
                    self.src(),
                    self.cursor(),
                    ch,
                ),
                self.cursor() >= self.src().len() || self.src()[self.cursor()] != ch,
            decreases self.src().len() - self.cursor(),
        {
            let c = match self.peek_next_char() {
                Some(c) => c,
                None => { break },
            };
            if c == ch {
                self.next_char();
            } else {
                break;
            }
        }
        let text = self.data.as_str().substring_char(start_pos, self.pos);
        String::from_str(text)
    }

    /// A token of exactly one character, the one at `start_pos`.
    fn single_char_token(
        &self,
        start_pos: usize,
        location: SourceLocation,
        kind: LexerTokenType,
    ) -> (r: LexerToken)
        requires
            self.wf(),
            start_pos < self.src().len(),
        ensures
            r.value@ == self.src().subrange(start_pos as int, start_pos + 1),
            r.location == location,
            r.type_ == kind,
    {
        let text = self.data.as_str().substring_char(start_pos, start_pos + 1);
        LexerToken { value: String::from_str(text), location, type_: kind }
    }

    /// Skips leading whitespace, then consumes and returns the next token.
    ///
    /// The token found is the one the model [`scan_at`] describes at the
    /// first non-skipped position: its kind, its text (exactly the consumed
    /// characters), and the line/column of its first character. When the
    /// character there is not recognized, the call returns an
    /// "unknown character" error carrying that position instead, and the
    /// caller must stop requesting tokens. Because every outcome is a
    /// function of the buffer and the cursor alone, re-scanning the same
    /// buffer always yields the same token sequence.
    pub fn get_next_token(&mut self) -> (r: Result<LexerToken, TError>)
        requires
            old(self).wf(),
        ensures
            final(self).wf(),
            final(self).src() == old(self).src(),
            ({
                let s = old(self).src();
                let start = old(self).cursor() + skip_len(s, old(self).cursor());
                match scan_at(s, start) {
                    Some((kind, end)) => {
                        &&& r is Ok
                        &&& r->Ok_0.type_ == kind
                        &&& r->Ok_0.value@ == s.subrange(start, end)
                        &&& r->Ok_0.location.spec_line() == line_at(s, start)
                        &&& r->Ok_0.location.spec_col() == col_at(s, start)
                        &&& final(self).cursor() == end
                    },
                    None => {
                        &&& r is Err
                        &&& r->Err_0.spec_message() == "unknown character"@
                        &&& r->Err_0.spec_location().spec_line() == line_at(s, start)
                        &&& r->Err_0.spec_location().spec_col() == col_at(s, start)
                        &&& final(self).cursor() == start + 1
                    },
                }
            }),
    {
        proof {
            lemma_skip_len_bounds(self.data@, self.pos as int);
        }
        self.consume_whitespace();
        let location = self.current_location();
        let start_pos = self.pos;
        let ghost s = self.data@;
        let ghost start = start_pos as int;
        let nchar = self.next_char();

        let c = match nchar {
            Some(c) => c,
            None => {
                proof {
                    assert(Seq::<char>::empty() =~= s.subrange(start, start));
                }
                return Ok(
                    LexerToken { value: String::new(), location, type_: LexerTokenType::Eof },
                );
            },
        };

        match c {
            '\n' => Ok(self.single_char_token(start_pos, location, LexerTokenType::Newline)),
            '(' => Ok(self.single_char_token(start_pos, location, LexerTokenType::ParenOpen)),
            ')' => Ok(self.single_char_token(start_pos, location, LexerTokenType::ParenClose)),
            '+' => Ok(self.single_char_token(start_pos, location, LexerTokenType::PlusToken)),
            '/' => Ok(self.single_char_token(start_pos, location, LexerTokenType::DivideToken)),
            '*' => Ok(self.single_char_token(start_pos, location, LexerTokenType::MultiplyToken)),
            '-' => Ok(self.single_char_token(start_pos, location, LexerTokenType::MinusToken)),
            '=' => Ok(self.single_char_token(start_pos, location, LexerTokenType::AssignToken)),
            _ => {
                if !(Lexer::is_alpha(c) || Lexer::is_numeric(c)) {
                    return Err(TError::with_location("unknown character", location));
                }
                let substr = self.next_valid_sequences(start_pos);
                let ghost t = s.subrange(start, start + word_len(s, start));
                proof {
                    assert(substr@ == t);
                    assert(all_digits(t) ==> all_numeric(t));
                }
                if all_chars_numeric(substr.as_str()) {
                    if all_chars_digits(substr.as_str()) {
                        Ok(LexerToken { value: substr, location, type_: LexerTokenType::IntToken })
                    } else {
                        Ok(
                            LexerToken {
                                value: substr,
                                location,
                                type_: LexerTokenType::FloatToken,
                            },
                        )
                    }
                } else if substr == String::from_str("print") || substr == String::from_str(
                    "Print",
                ) {
                    Ok(LexerToken { value: substr, location, type_: LexerTokenType::PrintToken })
                } else {
                    Ok(LexerToken { value: substr, location, type_: LexerTokenType::VarToken })
                }
            },
        }
    }
}

} // verus!
