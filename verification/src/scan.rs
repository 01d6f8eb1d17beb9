//! The pure model of scanning: character classes, line/column bookkeeping,
//! and the token found at each buffer position, together with the laws the
//! scanner obeys (no failure on recognized input, losslessness, and the
//! behaviour of line and column counters).
//!
//! The executable scanner in [`crate::lexer`] is verified against this model.

use crate::token::LexerTokenType;
use vstd::prelude::*;

verus! {

// ------------------------------------------------------------------
// Character classes
// ------------------------------------------------------------------
/// A character the scanner silently skips between tokens.
pub open spec fn is_skip_char(c: char) -> bool {
    c == ' ' || c == '\t'
}

/// An ASCII decimal digit.
pub open spec fn is_digit_char(c: char) -> bool {
    '0' <= c && c <= '9'
}

/// An ASCII letter.
pub open spec fn is_alpha_char(c: char) -> bool {
    ('a' <= c && c <= 'z') || ('A' <= c && c <= 'Z')
}

/// A character that may appear inside a word run: a letter, a digit or `.`.
pub open spec fn is_word_char(c: char) -> bool {
    is_alpha_char(c) || is_digit_char(c) || c == '.'
}

/// One of the seven single-character operators and delimiters.
pub open spec fn is_punct_char(c: char) -> bool {
    c == '(' || c == ')' || c == '+' || c == '-' || c == '*' || c == '/' || c == '='
}

/// The token kind of a single punctuation character.
pub open spec fn punct_kind(c: char) -> LexerTokenType {
    if c == '(' {
        LexerTokenType::ParenOpen
    } else if c == ')' {
        LexerTokenType::ParenClose
    } else if c == '+' {
        LexerTokenType::PlusToken
    } else if c == '-' {
        LexerTokenType::MinusToken
    } else if c == '*' {
        LexerTokenType::MultiplyToken
    } else if c == '/' {
        LexerTokenType::DivideToken
    } else {
        LexerTokenType::AssignToken
    }
}

/// A character the scanner accepts anywhere: skipped whitespace, a newline,
/// punctuation, or a word character.
pub open spec fn recognized_char(c: char) -> bool {
    is_skip_char(c) || c == '\n' || is_punct_char(c) || is_word_char(c)
}

// ------------------------------------------------------------------
// Line and column bookkeeping
// ------------------------------------------------------------------
/// The 1-based line number of the position reached after consuming the
/// first `pos` characters of `s`: one more than the newlines consumed.
pub open spec fn line_at(s: Seq<char>, pos: int) -> int
    decreases pos,
{
    if pos <= 0 {
        1
    } else if s[pos - 1] == '\n' {
        line_at(s, pos - 1) + 1
    } else {
        line_at(s, pos - 1)
    }
}

/// The 1-based column of the position reached after consuming the first
/// `pos` characters of `s`: each character advances it by one, and a
/// newline resets it to 1.
pub open spec fn col_at(s: Seq<char>, pos: int) -> int
    decreases pos,
{
    if pos <= 0 {
        1
    } else if s[pos - 1] == '\n' {
        1
    } else {
        col_at(s, pos - 1) + 1
    }
}

/// Line and column are always at least 1 and at most one past the number
/// of consumed characters.
pub proof fn lemma_line_col_bounds(s: Seq<char>, pos: int)
    requires
        0 <= pos,
    ensures
        1 <= line_at(s, pos) <= pos + 1,
        1 <= col_at(s, pos) <= pos + 1,
    decreases pos,
{
    if pos > 0 {
        lemma_line_col_bounds(s, pos - 1);
    }
}

/// Law: the line number never decreases as the cursor advances.
pub proof fn lemma_line_monotonic(s: Seq<char>, p: int, q: int)
    requires
        0 <= p <= q,
    ensures
        line_at(s, p) <= line_at(s, q),
    decreases q - p,
{
    if p < q {
        lemma_line_monotonic(s, p, q - 1);
    }
}

/// Law: the column is 1 just after consuming a character exactly when that
/// character is a newline.
pub proof fn lemma_column_reset(s: Seq<char>, p: int)
    requires
        0 <= p,
    ensures
        col_at(s, p + 1) == 1 <==> s[p] == '\n',
{
    lemma_line_col_bounds(s, p);
}

// ------------------------------------------------------------------
// Runs of characters
// ------------------------------------------------------------------
/// The number of consecutive skipped-whitespace characters at `pos`.
pub open spec fn skip_len(s: Seq<char>, pos: int) -> int
    decreases s.len() - pos,
{
    if 0 <= pos < s.len() && is_skip_char(s[pos]) {
        1 + skip_len(s, pos + 1)
    } else {
        0
    }
}

/// The length of the maximal run of word characters at `pos`.
pub open spec fn word_len(s: Seq<char>, pos: int) -> int
    decreases s.len() - pos,
{
    if 0 <= pos < s.len() && is_word_char(s[pos]) {
        1 + word_len(s, pos + 1)
    } else {
        0
    }
}

/// The length of the maximal run of copies of `ch` at `pos`.
pub open spec fn run_len(s: Seq<char>, pos: int, ch: char) -> int
    decreases s.len() - pos,
{
    if 0 <= pos < s.len() && s[pos] == ch {
        1 + run_len(s, pos + 1, ch)
    } else {
        0
    }
}

/// The skipped run stays inside the buffer, consists of skip characters
/// only, and is maximal.
pub proof fn lemma_skip_len_bounds(s: Seq<char>, pos: int)
    requires
        0 <= pos <= s.len(),
    ensures
        0 <= skip_len(s, pos),
        pos + skip_len(s, pos) <= s.len(),
        pos + skip_len(s, pos) < s.len() ==> !is_skip_char(s[pos + skip_len(s, pos)]),
        forall|i: int| pos <= i < pos + skip_len(s, pos) ==> is_skip_char(s[i]),
    decreases s.len() - pos,
{
    if pos < s.len() && is_skip_char(s[pos]) {
        lemma_skip_len_bounds(s, pos + 1);
    }
}

/// The word run stays inside the buffer, consists of word characters only,
/// and is maximal.
pub proof fn lemma_word_len_bounds(s: Seq<char>, pos: int)
    requires
        0 <= pos <= s.len(),
    ensures
        0 <= word_len(s, pos),
        pos + word_len(s, pos) <= s.len(),
        pos < s.len() && is_word_char(s[pos]) ==> word_len(s, pos) >= 1,
        pos + word_len(s, pos) < s.len() ==> !is_word_char(s[pos + word_len(s, pos)]),
        forall|i: int| pos <= i < pos + word_len(s, pos) ==> is_word_char(s[i]),
    decreases s.len() - pos,
{
    if pos < s.len() && is_word_char(s[pos]) {
        lemma_word_len_bounds(s, pos + 1);
    }
}

// ------------------------------------------------------------------
// Classification of word runs
// ------------------------------------------------------------------
/// Every character of `t` is a decimal digit.
pub open spec fn all_digits(t: Seq<char>) -> bool {
    forall|i: int| 0 <= i < t.len() ==> is_digit_char(t[i])
}

/// Every character of `t` is a decimal digit or `.`.
pub open spec fn all_numeric(t: Seq<char>) -> bool {
    forall|i: int| 0 <= i < t.len() ==> is_digit_char(t[i]) || t[i] == '.'
}

/// The kind given to the text of a word run: an integer literal when all
/// characters are digits, a float literal when all are digits or `.`
/// (malformed numerals such as `1.2.3` are accepted as float text), the
/// keyword when the text is exactly `print` or `Print`, and an identifier
/// otherwise.
pub open spec fn classify_word(t: Seq<char>) -> LexerTokenType {
    if all_digits(t) {
        LexerTokenType::IntToken
    } else if all_numeric(t) {
        LexerTokenType::FloatToken
    } else if t == "print"@ || t == "Print"@ {
        LexerTokenType::PrintToken
    } else {
        LexerTokenType::VarToken
    }
}

// ------------------------------------------------------------------
// One scanning step, and whole-buffer scans
// ------------------------------------------------------------------
/// One scanning step at `start`, a position at which leading whitespace has
/// already been skipped. Yields the token kind and the position one past
/// the token's last character, or `None` when the character at `start` is
/// not recognized. The token's text is `s.subrange(start, end)`.
pub open spec fn scan_at(s: Seq<char>, start: int) -> Option<(LexerTokenType, int)> {
    if start >= s.len() {
        Some((LexerTokenType::Eof, start))
    } else if s[start] == '\n' {
        Some((LexerTokenType::Newline, start + 1))
    } else if is_punct_char(s[start]) {
        Some((punct_kind(s[start]), start + 1))
    } else if is_word_char(s[start]) {
        Some(
            (
                classify_word(s.subrange(start, start + word_len(s, start))),
                start + word_len(s, start),
            ),
        )
    } else {
        None
    }
}

/// The whole buffer scans without error from `pos` onward.
pub open spec fn scan_ok(s: Seq<char>, pos: int) -> bool
    decreases s.len() - pos
        when 0 <= pos <= s.len()
        via scan_ok_decreases
{
    let start = pos + skip_len(s, pos);
    match scan_at(s, start) {
        None => false,
        Some((kind, end)) => kind == LexerTokenType::Eof || scan_ok(s, end),
    }
}

#[via_fn]
proof fn scan_ok_decreases(s: Seq<char>, pos: int) {
    lemma_step_bounds(s, pos);
}

/// The text reassembled from a scan that starts at `pos`: the skipped
/// whitespace and the token texts, concatenated in order. When the scan
/// fails, only what was consumed before the failure is included.
pub open spec fn rebuild(s: Seq<char>, pos: int) -> Seq<char>
    decreases s.len() - pos
        when 0 <= pos <= s.len()
        via rebuild_decreases
{
    let start = pos + skip_len(s, pos);
    match scan_at(s, start) {
        None => s.subrange(pos, start),
        Some((kind, end)) => if kind == LexerTokenType::Eof {
            s.subrange(pos, start)
        } else {
            s.subrange(pos, start) + s.subrange(start, end) + rebuild(s, end)
        },
    }
}

#[via_fn]
proof fn rebuild_decreases(s: Seq<char>, pos: int) {
    lemma_step_bounds(s, pos);
}

/// A successful scanning step lands strictly past `pos` and inside the
/// buffer, except for the end-of-input step, which stands still.
pub proof fn lemma_step_bounds(s: Seq<char>, pos: int)
    requires
        0 <= pos <= s.len(),
    ensures
        match scan_at(s, pos + skip_len(s, pos)) {
            None => true,
            Some((kind, end)) => if kind == LexerTokenType::Eof {
                end == s.len()
            } else {
                pos <= pos + skip_len(s, pos) < end <= s.len()
            },
        },
{
    lemma_skip_len_bounds(s, pos);
    let start = pos + skip_len(s, pos);
    if start < s.len() && is_word_char(s[start]) {
        lemma_word_len_bounds(s, start);
        let t = s.subrange(start, start + word_len(s, start));
        assert(t.len() >= 1);
        assert(classify_word(t) != LexerTokenType::Eof);
    }
}

// ------------------------------------------------------------------
// Laws
// ------------------------------------------------------------------
/// A successful scan succeeds step by step: the step at `pos` finds a
/// token, and past any token other than end-of-input the rest of the
/// buffer still scans.
pub proof fn lemma_scan_ok_step(s: Seq<char>, pos: int)
    requires
        0 <= pos <= s.len(),
        scan_ok(s, pos),
    ensures
        scan_at(s, pos + skip_len(s, pos)) is Some,
        match scan_at(s, pos + skip_len(s, pos)) {
            None => true,
            Some((kind, end)) => kind == LexerTokenType::Eof || scan_ok(s, end),
        },
{
    lemma_skip_len_bounds(s, pos);
    lemma_step_bounds(s, pos);
}

/// Law: within one scan, the line number a token is reported at never
/// decreases from one token to the next.
pub proof fn lemma_token_lines_nondecreasing(s: Seq<char>, pos: int)
    requires
        0 <= pos <= s.len(),
    ensures
        match scan_at(s, pos + skip_len(s, pos)) {
            None => true,
            Some((kind, end)) => line_at(s, pos + skip_len(s, pos)) <= line_at(
                s,
                end + skip_len(s, end),
            ),
        },
{
    lemma_skip_len_bounds(s, pos);
    lemma_step_bounds(s, pos);
    let start = pos + skip_len(s, pos);
    match scan_at(s, start) {
        None => {},
        Some((kind, end)) => {
            lemma_skip_len_bounds(s, end);
            lemma_line_monotonic(s, start, end + skip_len(s, end));
        },
    }
}

/// Law: scanning from `pos` never fails when every character of the buffer
/// is recognized.
pub proof fn lemma_recognized_scan_ok_from(s: Seq<char>, pos: int)
    requires
        0 <= pos <= s.len(),
        forall|i: int| 0 <= i < s.len() ==> recognized_char(s[i]),
    ensures
        scan_ok(s, pos),
    decreases s.len() - pos,
{
    lemma_skip_len_bounds(s, pos);
    lemma_step_bounds(s, pos);
    let start = pos + skip_len(s, pos);
    if start < s.len() {
        assert(recognized_char(s[start]));
        assert(!is_skip_char(s[start]));
        match scan_at(s, start) {
            None => {
                assert(false);
            },
            Some((kind, end)) => {
                if kind != LexerTokenType::Eof {
                    lemma_recognized_scan_ok_from(s, end);
                }
            },
        }
    }
}

/// Law: scanning never fails on a buffer that holds only recognized
/// characters — letters, digits, `.`, spaces, tabs, newlines, and the
/// seven punctuation characters.
pub proof fn lemma_recognized_scan_ok(s: Seq<char>)
    requires
        forall|i: int| 0 <= i < s.len() ==> recognized_char(s[i]),
    ensures
        scan_ok(s, 0),
{
    lemma_recognized_scan_ok_from(s, 0);
}

/// Law: a successful scan from `pos` is lossless — the skipped whitespace
/// and the token texts, concatenated in order, rebuild the rest of the
/// buffer exactly.
pub proof fn lemma_scan_lossless_from(s: Seq<char>, pos: int)
    requires
        0 <= pos <= s.len(),
        scan_ok(s, pos),
    ensures
        rebuild(s, pos) == s.subrange(pos, s.len() as int),
    decreases s.len() - pos,
{
    lemma_skip_len_bounds(s, pos);
    lemma_step_bounds(s, pos);
    let start = pos + skip_len(s, pos);
    match scan_at(s, start) {
        None => {
            assert(false);
        },
        Some((kind, end)) => {
            if kind == LexerTokenType::Eof {
                assert(start == s.len());
            } else {
                lemma_scan_lossless_from(s, end);
                assert(s.subrange(pos, start) + s.subrange(start, end) + s.subrange(
                    end,
                    s.len() as int,
                ) =~= s.subrange(pos, s.len() as int));
            }
        },
    }
}

/// Law: a successful scan of the whole buffer is lossless.
pub proof fn lemma_scan_lossless(s: Seq<char>)
    requires
        scan_ok(s, 0),
    ensures
        rebuild(s, 0) == s,
{
    lemma_scan_lossless_from(s, 0);
    assert(s.subrange(0, s.len() as int) =~= s);
}

} // verus!
