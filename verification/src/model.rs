//! The mathematical model of the scanner: character classes, position
//! tracking, and one specification function per scan routine.  The
//! executable scanner in [`crate::lexer`] is proved to follow
//! [`next_step`] exactly.

use vstd::prelude::*;
use crate::token::{KindModel, Location, Symbol, spec_to_keyword};

verus! {

// ---------------------------------------------------------------------
// Character classes
// ---------------------------------------------------------------------

/// Characters that may begin an identifier: ASCII letters, `_` and `$`.
pub open spec fn is_id_start(c: char) -> bool {
    ('a' <= c && c <= 'z') || ('A' <= c && c <= 'Z') || c == '_' || c == '$'
}

/// ASCII decimal digits.
pub open spec fn is_digit(c: char) -> bool {
    '0' <= c && c <= '9'
}

/// Whether a character beyond ASCII counts as alphanumeric under Unicode.
/// The full Unicode table is far too large to restate; this name stands
/// for what `char::is_alphanumeric` returns there.
pub uninterp spec fn non_ascii_alphanumeric(c: char) -> bool;

/// Alphanumeric per the Unicode predicate the scanner uses: on ASCII this
/// is exactly letters and digits; beyond ASCII it is
/// [`non_ascii_alphanumeric`].
pub open spec fn is_alnum(c: char) -> bool {
    if c <= '\u{7f}' {
        ('0' <= c && c <= '9') || ('a' <= c && c <= 'z') || ('A' <= c && c <= 'Z')
    } else {
        non_ascii_alphanumeric(c)
    }
}

/// Characters that may continue an identifier.
pub open spec fn is_id_continue(c: char) -> bool {
    is_alnum(c) || c == '_' || c == '$'
}

/// The Unicode `White_Space` set, written out code point by code point.
pub open spec fn is_space(c: char) -> bool {
    ||| c == ' '
    ||| ('\u{9}' <= c && c <= '\u{d}')
    ||| c == '\u{85}'
    ||| c == '\u{a0}'
    ||| c == '\u{1680}'
    ||| ('\u{2000}' <= c && c <= '\u{200a}')
    ||| c == '\u{2028}'
    ||| c == '\u{2029}'
    ||| c == '\u{202f}'
    ||| c == '\u{205f}'
    ||| c == '\u{3000}'
}

// ---------------------------------------------------------------------
// Executable character classifiers
// ---------------------------------------------------------------------

pub fn check_id_start(c: char) -> (r: bool)
    ensures
        r == is_id_start(c),
{
    ('a' <= c && c <= 'z') || ('A' <= c && c <= 'Z') || c == '_' || c == '$'
}

pub fn check_digit(c: char) -> (r: bool)
    ensures
        r == is_digit(c),
{
    '0' <= c && c <= '9'
}

/// Relies on `char::is_alphanumeric`: its result depends on the character
/// alone; on ASCII it holds exactly of letters and digits, and beyond
/// ASCII its value is named by [`non_ascii_alphanumeric`].
#[verifier::external_body]
pub fn check_alnum(c: char) -> (r: bool)
    ensures
        r == is_alnum(c),
        c > '\u{7f}' ==> r == non_ascii_alphanumeric(c),
{
    c.is_alphanumeric()
}

pub fn check_id_continue(c: char) -> (r: bool)
    ensures
        r == is_id_continue(c),
{
    check_alnum(c) || c == '_' || c == '$'
}

/// Membership in the Unicode `White_Space` set, the set that
/// `char::is_whitespace` recognizes.
pub fn check_space(c: char) -> (r: bool)
    ensures
        r == is_space(c),
{
    c == ' ' || ('\u{9}' <= c && c <= '\u{d}') || c == '\u{85}' || c == '\u{a0}'
        || c == '\u{1680}' || ('\u{2000}' <= c && c <= '\u{200a}') || c == '\u{2028}'
        || c == '\u{2029}' || c == '\u{202f}' || c == '\u{205f}' || c == '\u{3000}'
}

// ---------------------------------------------------------------------
// Position tracking
// ---------------------------------------------------------------------

/// The 1-based line number after consuming `pos` characters of `src`.
pub open spec fn line_at(src: Seq<char>, pos: int) -> int
    decreases pos,
{
    if pos <= 0 {
        1
    } else {
        line_at(src, pos - 1) + (if src[pos - 1] == '\n' { 1int } else { 0int })
    }
}

/// The column after consuming `pos` characters of `src`: incremented per
/// character and reset to 0 by a newline.
pub open spec fn col_at(src: Seq<char>, pos: int) -> int
    decreases pos,
{
    if pos <= 0 {
        0
    } else if src[pos - 1] == '\n' {
        0
    } else {
        col_at(src, pos - 1) + 1
    }
}

/// The cursor location after consuming `pos` characters of `src`.
pub open spec fn loc_at(src: Seq<char>, pos: int) -> Location {
    Location { line: line_at(src, pos) as usize, col: col_at(src, pos) as usize }
}

pub proof fn lemma_loc_bounds(src: Seq<char>, pos: int)
    requires
        0 <= pos,
    ensures
        1 <= line_at(src, pos) <= pos + 1,
        0 <= col_at(src, pos) <= pos,
    decreases pos,
{
    if pos > 0 {
        lemma_loc_bounds(src, pos - 1);
    }
}

// ---------------------------------------------------------------------
// Scan routines, as functions over the source and the cursor
// ---------------------------------------------------------------------

/// The first position at or after `pos` whose character is not whitespace
/// (or the end of the source).
pub open spec fn space_end(src: Seq<char>, pos: int) -> int
    decreases src.len() - pos,
{
    if pos < 0 || pos >= src.len() {
        pos
    } else if is_space(src[pos]) {
        space_end(src, pos + 1)
    } else {
        pos
    }
}

/// The first position at or after `pos` whose character cannot continue an
/// identifier (or the end of the source).
pub open spec fn ident_end(src: Seq<char>, pos: int) -> int
    decreases src.len() - pos,
{
    if pos < 0 || pos >= src.len() {
        pos
    } else if is_id_continue(src[pos]) {
        ident_end(src, pos + 1)
    } else {
        pos
    }
}

/// Result of scanning a numeric run: either the run's end position, or
/// the position of a second decimal point, which is a hard error.
pub enum NumScan {
    Done { end: int },
    SecondDot { at: int },
}

/// Scans a maximal run of decimal digits and at most one `.` starting at
/// `pos`; `seen_dot` records whether the run already consumed a point.
pub open spec fn number_scan(src: Seq<char>, pos: int, seen_dot: bool) -> NumScan
    decreases src.len() - pos,
{
    if pos < 0 || pos >= src.len() {
        NumScan::Done { end: pos }
    } else if src[pos] == '.' {
        if seen_dot {
            NumScan::SecondDot { at: pos }
        } else {
            number_scan(src, pos + 1, true)
        }
    } else if is_digit(src[pos]) {
        number_scan(src, pos + 1, seen_dot)
    } else {
        NumScan::Done { end: pos }
    }
}

/// Whether `src` holds a `.` anywhere in `[a, b)`.
pub open spec fn has_dot(src: Seq<char>, a: int, b: int) -> bool {
    exists|i: int| a <= i < b && src[i] == '.'
}

/// What one "produce next token" call does: the exhaustion signal, a token
/// with the positions its span is measured at, or a malformed-number
/// rejection with the cursor's final position and the error text.
pub enum NextStep {
    Eof,
    Tok { kind: KindModel, start: int, end: int },
    Reject { end: int, msg: Seq<char> },
}

/// The number scanner entered at `start`, with `from_dot` true when the
/// operator scanner already consumed a leading `.` as the prefix of the
/// literal.  A second point inside the run rejects at once; a run that
/// contains a point while the prefix was already `.` makes the
/// accumulated text unparsable and rejects after the run.
pub open spec fn number_step(src: Seq<char>, start: int, from_dot: bool) -> NextStep {
    match number_scan(src, start, false) {
        NumScan::SecondDot { at } => NextStep::Reject { end: at, msg: "Failed to parse"@ },
        NumScan::Done { end } => {
            if from_dot && has_dot(src, start, end) {
                NextStep::Reject { end, msg: "Failed to parse number"@ }
            } else {
                let text = if from_dot {
                    seq!['.'] + src.subrange(start, end)
                } else {
                    src.subrange(start, end)
                };
                NextStep::Tok { kind: KindModel::Number(text), start, end }
            }
        },
    }
}

/// The kind of the token the identifier scanner produces at `start`: the
/// maximal identifier run, classified against the keyword table.
pub open spec fn ident_kind(src: Seq<char>, start: int) -> KindModel {
    let name = src.subrange(start, ident_end(src, start));
    match spec_to_keyword(name) {
        Some(k) => KindModel::Keyword(k),
        None => KindModel::Identifier(name),
    }
}

/// The identifier scanner entered at `start`.  It never fails.
pub open spec fn ident_step(src: Seq<char>, start: int) -> NextStep {
    NextStep::Tok { kind: ident_kind(src, start), start, end: ident_end(src, start) }
}

/// True when position `i` of `src` exists and holds `c`: the lookahead
/// that extends a multi-character operator.
pub open spec fn at(src: Seq<char>, i: int, c: char) -> bool {
    0 <= i < src.len() && src[i] == c
}

/// A symbol token covering `[start, end)`.
pub open spec fn sym(s: Symbol, start: int, end: int) -> NextStep {
    NextStep::Tok { kind: KindModel::Symbol(s), start, end }
}

/// The operator/punctuation scanner at position `p` (`p` in bounds).  It
/// consumes one character and then extends the match greedily, always
/// preferring the longest recognized operator; a `.` directly followed by
/// a digit delegates to the number scanner with the point as prefix; an
/// unrecognized character degrades to [`Symbol::Nothing`].
pub open spec fn symbol_step(src: Seq<char>, p: int) -> NextStep {
    let c = src[p];
    if c == '=' {
        if at(src, p + 1, '=') {
            if at(src, p + 2, '=') {
                sym(Symbol::SEq, p, p + 3)
            } else {
                sym(Symbol::Eq, p, p + 2)
            }
        } else if at(src, p + 1, '>') {
            sym(Symbol::Arrow, p, p + 2)
        } else {
            sym(Symbol::Assign, p, p + 1)
        }
    } else if c == '(' {
        sym(Symbol::OpeningParen, p, p + 1)
    } else if c == ')' {
        sym(Symbol::ClosingParen, p, p + 1)
    } else if c == '[' {
        sym(Symbol::OpeningBoxBracket, p, p + 1)
    } else if c == ']' {
        sym(Symbol::ClosingBoxBracket, p, p + 1)
    } else if c == '{' {
        sym(Symbol::OpeningBrace, p, p + 1)
    } else if c == '}' {
        sym(Symbol::ClosingBrace, p, p + 1)
    } else if c == '.' {
        if at(src, p + 1, '.') {
            if at(src, p + 2, '.') {
                sym(Symbol::Spread, p, p + 3)
            } else {
                sym(Symbol::Dot, p, p + 2)
            }
        } else if p + 1 < src.len() && is_digit(src[p + 1]) {
            number_step(src, p + 1, true)
        } else {
            sym(Symbol::Dot, p, p + 1)
        }
    } else if c == ';' {
        sym(Symbol::SemiColon, p, p + 1)
    } else if c == ',' {
        sym(Symbol::Comma, p, p + 1)
    } else if c == '?' {
        sym(Symbol::Question, p, p + 1)
    } else if c == ':' {
        sym(Symbol::Colon, p, p + 1)
    } else if c == '~' {
        sym(Symbol::BitwiseNot, p, p + 1)
    } else if c == '+' {
        if at(src, p + 1, '+') {
            sym(Symbol::Inc, p, p + 2)
        } else if at(src, p + 1, '=') {
            sym(Symbol::AssignAdd, p, p + 2)
        } else {
            sym(Symbol::Add, p, p + 1)
        }
    } else if c == '-' {
        if at(src, p + 1, '-') {
            sym(Symbol::Dec, p, p + 2)
        } else if at(src, p + 1, '=') {
            sym(Symbol::AssignSub, p, p + 2)
        } else {
            sym(Symbol::Sub, p, p + 1)
        }
    } else if c == '!' {
        if at(src, p + 1, '=') {
            if at(src, p + 2, '=') {
                sym(Symbol::SNe, p, p + 3)
            } else {
                sym(Symbol::Ne, p, p + 2)
            }
        } else {
            sym(Symbol::Not, p, p + 1)
        }
    } else if c == '%' {
        if at(src, p + 1, '=') {
            sym(Symbol::AssignMod, p, p + 2)
        } else {
            sym(Symbol::Mod, p, p + 1)
        }
    } else if c == '^' {
        if at(src, p + 1, '=') {
            sym(Symbol::AssignXor, p, p + 2)
        } else {
            sym(Symbol::Xor, p, p + 1)
        }
    } else if c == '|' {
        if at(src, p + 1, '|') {
            sym(Symbol::Or, p, p + 2)
        } else if at(src, p + 1, '=') {
            sym(Symbol::AssignOr, p, p + 2)
        } else {
            sym(Symbol::BitwiseOr, p, p + 1)
        }
    } else if c == '&' {
        if at(src, p + 1, '&') {
            sym(Symbol::And, p, p + 2)
        } else if at(src, p + 1, '=') {
            sym(Symbol::AssignAnd, p, p + 2)
        } else {
            sym(Symbol::BitwiseAnd, p, p + 1)
        }
    } else if c == '*' {
        if at(src, p + 1, '*') {
            if at(src, p + 2, '=') {
                sym(Symbol::AssignPow, p, p + 3)
            } else {
                sym(Symbol::Pow, p, p + 2)
            }
        } else if at(src, p + 1, '=') {
            sym(Symbol::AssignMul, p, p + 2)
        } else {
            sym(Symbol::Mul, p, p + 1)
        }
    } else if c == '<' {
        if at(src, p + 1, '<') {
            if at(src, p + 2, '=') {
                sym(Symbol::AssignShl, p, p + 3)
            } else {
                sym(Symbol::Shl, p, p + 2)
            }
        } else if at(src, p + 1, '=') {
            sym(Symbol::Le, p, p + 2)
        } else {
            sym(Symbol::Lt, p, p + 1)
        }
    } else if c == '>' {
        if at(src, p + 1, '>') {
            if at(src, p + 2, '>') {
                if at(src, p + 3, '=') {
                    sym(Symbol::AssignZFShr, p, p + 4)
                } else {
                    sym(Symbol::ZFShr, p, p + 3)
                }
            } else if at(src, p + 2, '=') {
                sym(Symbol::AssignShr, p, p + 3)
            } else {
                sym(Symbol::Shr, p, p + 2)
            }
        } else if at(src, p + 1, '=') {
            sym(Symbol::Ge, p, p + 2)
        } else {
            sym(Symbol::Gt, p, p + 1)
        }
    } else {
        sym(Symbol::Nothing, p, p + 1)
    }
}

/// One "produce next token" call on a scanner whose cursor sits at `pos`:
/// whitespace is skipped in full, end of input is signalled once nothing
/// remains, and otherwise the first remaining character picks the scan
/// routine.
pub open spec fn next_step(src: Seq<char>, pos: int) -> NextStep {
    let p = space_end(src, pos);
    if p >= src.len() {
        NextStep::Eof
    } else if is_id_start(src[p]) {
        ident_step(src, p)
    } else if is_digit(src[p]) {
        number_step(src, p, false)
    } else {
        symbol_step(src, p)
    }
}

// ---------------------------------------------------------------------
// Basic facts about the scan functions
// ---------------------------------------------------------------------

pub proof fn lemma_space_end(src: Seq<char>, pos: int)
    requires
        0 <= pos <= src.len(),
    ensures
        pos <= space_end(src, pos) <= src.len(),
        space_end(src, pos) < src.len() ==> !is_space(src[space_end(src, pos)]),
        forall|i: int| pos <= i < space_end(src, pos) ==> is_space(src[i]),
        space_end(src, space_end(src, pos)) == space_end(src, pos),
    decreases src.len() - pos,
{
    if pos < src.len() && is_space(src[pos]) {
        lemma_space_end(src, pos + 1);
    }
}

pub proof fn lemma_ident_end(src: Seq<char>, pos: int)
    requires
        0 <= pos <= src.len(),
    ensures
        pos <= ident_end(src, pos) <= src.len(),
        ident_end(src, pos) < src.len() ==> !is_id_continue(src[ident_end(src, pos)]),
        forall|i: int| pos <= i < ident_end(src, pos) ==> is_id_continue(src[i]),
    decreases src.len() - pos,
{
    if pos < src.len() && is_id_continue(src[pos]) {
        lemma_ident_end(src, pos + 1);
    }
}

/// Every scan call makes progress: a token consumes at least one
/// character, and no outcome ever leaves the source's bounds.
pub proof fn lemma_next_step_progress(src: Seq<char>, pos: int)
    requires
        0 <= pos <= src.len(),
    ensures
        match next_step(src, pos) {
            NextStep::Eof => true,
            NextStep::Tok { kind, start, end } => pos <= start < end <= src.len(),
            NextStep::Reject { end, msg } => pos <= end <= src.len(),
        },
{
    lemma_space_end(src, pos);
    let p = space_end(src, pos);
    if p < src.len() {
        if is_id_start(src[p]) {
            assert(is_id_continue(src[p]));
            lemma_ident_end(src, p + 1);
        } else if is_digit(src[p]) {
            assert(number_scan(src, p, false) == number_scan(src, p + 1, false));
            lemma_number_scan(src, p + 1, false);
        } else if src[p] == '.' && !at(src, p + 1, '.') && p + 1 < src.len() && is_digit(
            src[p + 1],
        ) {
            assert(number_scan(src, p + 1, false) == number_scan(src, p + 2, false));
            lemma_number_scan(src, p + 2, false);
        }
    }
}

/// The whole token stream from `pos` on: every kind the scanner yields,
/// up to the end of the input or the first rejection.
pub open spec fn token_kinds(src: Seq<char>, pos: int) -> Seq<KindModel>
    decreases src.len() - pos,
    when 0 <= pos <= src.len()
    via token_kinds_decreases
{
    match next_step(src, pos) {
        NextStep::Eof => Seq::empty(),
        NextStep::Reject { .. } => Seq::empty(),
        NextStep::Tok { kind, start, end } => seq![kind] + token_kinds(src, end),
    }
}

#[via_fn]
proof fn token_kinds_decreases(src: Seq<char>, pos: int) {
    lemma_next_step_progress(src, pos);
}

pub proof fn lemma_number_scan(src: Seq<char>, pos: int, seen_dot: bool)
    requires
        0 <= pos <= src.len(),
    ensures
        match number_scan(src, pos, seen_dot) {
            NumScan::Done { end } => pos <= end <= src.len(),
            NumScan::SecondDot { at } => pos <= at < src.len() && src[at] == '.',
        },
    decreases src.len() - pos,
{
    if pos < src.len() {
        if src[pos] == '.' && !seen_dot {
            lemma_number_scan(src, pos + 1, true);
        } else if is_digit(src[pos]) {
            lemma_number_scan(src, pos + 1, seen_dot);
        }
    }
}

} // verus!
