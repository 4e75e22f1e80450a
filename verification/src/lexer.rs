//! The scanner itself: a cursor over the source text and the scan
//! routines, each proved against the model in [`crate::model`].

use vstd::prelude::*;
use vstd::string::StrSliceExecFns;
use vstd::string::StringExecFns;
use crate::model::{
    check_digit, check_id_continue, check_id_start, check_space, col_at, has_dot, ident_end,
    ident_kind, lemma_loc_bounds, lemma_space_end, line_at, loc_at, next_step, number_scan,
    number_step, space_end, symbol_step, NextStep, NumScan,
};
use crate::token::{Kind, Location, Symbol, Token, TokenLocation, to_keyword};

verus! {

/// How a scan call fails: `EOF` is the exhaustion signal raised once no
/// character remains, `Lexer` a malformed numeric literal with its
/// message.
#[derive(Clone, Debug, PartialEq)]
pub enum Error {
    EOF,
    Lexer(String),
}

/// The scanner: owns the source text, a character-offset cursor and the
/// current line and column.  Created once per source text and mutated in
/// place by every scan call.
#[derive(Clone, Debug)]
pub struct Lexer {
    source: String,
    len: usize,
    pos: usize,
    line: usize,
    col: usize,
}

impl Lexer {
    /// The source text as a character sequence.
    pub closed spec fn src(&self) -> Seq<char> {
        self.source@
    }

    /// The cursor: how many characters have been consumed.
    pub closed spec fn cursor(&self) -> int {
        self.pos as int
    }

    /// Internal consistency: the cursor stays inside the source and the
    /// line and column are exactly the position-tracking fold of the
    /// consumed prefix.
    pub closed spec fn wf(&self) -> bool {
        &&& self.len == self.source@.len()
        &&& self.source@.len() < usize::MAX
        &&& self.pos <= self.len
        &&& self.line == line_at(self.source@, self.pos as int)
        &&& self.col == col_at(self.source@, self.pos as int)
    }

    /// A scanner over `source`, with the cursor at the first character.
    /// The character count must leave room for the line counter — a
    /// machine limit only, met by every text that fits in memory.
    pub fn new(source: String) -> (l: Lexer)
        requires
            source@.len() < usize::MAX,
        ensures
            l.wf(),
            l.src() == source@,
            l.cursor() == 0,
    {
        let len = source.as_str().unicode_len();
        Lexer { source, len, pos: 0, line: 1, col: 0 }
    }

    /// True iff the cursor is at or past the end of the source.
    fn eof(&self) -> (r: bool)
        requires
            self.wf(),
        ensures
            r == (self.cursor() >= self.src().len()),
    {
        self.pos >= self.len
    }

    /// Returns the character at the cursor without consuming it, or
    /// `EOF` when none remains.
    fn read_next_char(&self) -> (r: Result<char, Error>)
        requires
            self.wf(),
        ensures
            self.cursor() < self.src().len() ==> r == Ok::<char, Error>(
                self.src()[self.cursor()],
            ),
            self.cursor() >= self.src().len() ==> r == Err::<char, Error>(Error::EOF),
    {
        if self.pos >= self.len {
            Err(Error::EOF)
        } else {
            Ok(self.source.as_str().get_char(self.pos))
        }
    }

    /// Returns the character at the cursor and consumes it, advancing the
    /// column, or the line on a newline; `EOF` when none remains.
    fn take_next_char(&mut self) -> (r: Result<char, Error>)
        requires
            old(self).wf(),
        ensures
            final(self).wf(),
            final(self).src() == old(self).src(),
            old(self).cursor() < old(self).src().len() ==> {
                &&& r == Ok::<char, Error>(old(self).src()[old(self).cursor()])
                &&& final(self).cursor() == old(self).cursor() + 1
            },
            old(self).cursor() >= old(self).src().len() ==> {
                &&& r == Err::<char, Error>(Error::EOF)
                &&& *final(self) == *old(self)
            },
    {
        match self.read_next_char() {
            Ok(c) => {
                proof {
                    lemma_loc_bounds(self.source@, self.pos as int);
                }
                self.pos = self.pos + 1;
                if c == '\n' {
                    self.line = self.line + 1;
                    self.col = 0;
                } else {
                    self.col = self.col + 1;
                }
                Ok(c)
            },
            Err(e) => Err(e),
        }
    }

    /// Consumes the character at the cursor iff it exists and equals
    /// `expected`: the lookahead primitive behind maximal munch.
    fn take_next_char_if(&mut self, expected: char) -> (r: Result<bool, Error>)
        requires
            old(self).wf(),
        ensures
            final(self).wf(),
            final(self).src() == old(self).src(),
            ({
                let hit = old(self).cursor() < old(self).src().len()
                    && old(self).src()[old(self).cursor()] == expected;
                &&& r == Ok::<bool, Error>(hit)
                &&& final(self).cursor() == old(self).cursor() + (if hit { 1int } else { 0int })
            }),
    {
        if self.eof() {
            return Ok(false);
        }
        match self.read_next_char() {
            Ok(c) => {
                if c == expected {
                    let _ = self.take_next_char();
                    Ok(true)
                } else {
                    Ok(false)
                }
            },
            Err(e) => Err(e),
        }
    }

    fn get_current_location(&self) -> (r: Location)
        requires
            self.wf(),
        ensures
            r == loc_at(self.src(), self.cursor()),
    {
        proof {
            lemma_loc_bounds(self.source@, self.pos as int);
        }
        Location { line: self.line, col: self.col }
    }

    /// Skips one maximal run of whitespace.  Recovers locally: the run
    /// itself never surfaces an error.
    fn read_whitespaces(&mut self) -> (r: Result<(), Error>)
        requires
            old(self).wf(),
        ensures
            final(self).wf(),
            final(self).src() == old(self).src(),
            final(self).cursor() == space_end(old(self).src(), old(self).cursor()),
            r == Ok::<(), Error>(()),
    {
        let ghost src0 = self.src();
        let ghost pos0 = self.cursor();
        loop
            invariant
                self.wf(),
                self.src() == src0,
                pos0 <= self.cursor() <= self.src().len(),
                space_end(src0, self.cursor()) == space_end(src0, pos0),
            ensures
                self.wf(),
                self.src() == src0,
                self.cursor() == space_end(src0, pos0),
            decreases self.src().len() - self.cursor(),
        {
            match self.read_next_char() {
                Ok(c) => {
                    if check_space(c) {
                        let _ = self.take_next_char();
                    } else {
                        break;
                    }
                },
                Err(_) => {
                    break;
                },
            }
        }
        Ok(())
    }

    /// Scans a maximal identifier run and classifies it against the
    /// keyword table.  Never fails.
    fn read_identifier(&mut self) -> (r: Result<Token, Error>)
        requires
            old(self).wf(),
        ensures
            final(self).wf(),
            final(self).src() == old(self).src(),
            ({
                let src = old(self).src();
                let start = old(self).cursor();
                let end = ident_end(src, start);
                &&& final(self).cursor() == end
                &&& r matches Ok(t) && t.location.start == loc_at(src, start)
                    && t.location.end == loc_at(src, end) && t.kind@ == ident_kind(src, start)
            }),
    {
        let start = self.get_current_location();
        let start_pos: usize = self.pos;
        let ghost src0 = self.src();
        loop
            invariant
                self.wf(),
                self.src() == src0,
                start_pos <= self.cursor() <= self.src().len(),
                ident_end(src0, self.cursor()) == ident_end(src0, start_pos as int),
            ensures
                self.wf(),
                self.src() == src0,
                self.cursor() == ident_end(src0, start_pos as int),
            decreases self.src().len() - self.cursor(),
        {
            match self.read_next_char() {
                Ok(c) => {
                    if check_id_continue(c) {
                        let _ = self.take_next_char();
                    } else {
                        break;
                    }
                },
                Err(_) => {
                    break;
                },
            }
        }
        let name_slice = self.source.as_str().substring_char(start_pos, self.pos);
        let name = name_slice.to_owned();
        let end = self.get_current_location();
        match to_keyword(name.as_str()) {
            Some(keyword) => Ok(
                Token::new_keyword(TokenLocation { start, end }, Kind::Keyword(keyword)),
            ),
            None => Ok(Token::new_identifier(TokenLocation { start, end }, name)),
        }
    }

    /// Scans a maximal run of decimal digits and at most one decimal
    /// point, appended to the caller-supplied prefix (empty, or `.` when
    /// entered from the operator scanner).  A second point inside the
    /// run is rejected at once; a point inside the run on top of a `.`
    /// prefix makes the accumulated text unparsable and is rejected
    /// after the run.
    fn read_number(&mut self, s: String) -> (r: Result<Token, Error>)
        requires
            old(self).wf(),
            s@ == Seq::<char>::empty() || s@ == seq!['.'],
        ensures
            final(self).wf(),
            final(self).src() == old(self).src(),
            ({
                let src = old(self).src();
                match number_step(src, old(self).cursor(), s@ == seq!['.']) {
                    NextStep::Tok { kind, start, end } => {
                        &&& final(self).cursor() == end
                        &&& r matches Ok(t) && t.location.start == loc_at(src, start)
                            && t.location.end == loc_at(src, end) && t.kind@ == kind
                    },
                    NextStep::Reject { end, msg } => {
                        &&& final(self).cursor() == end
                        &&& r matches Err(e) && e matches Error::Lexer(m) && m@ == msg
                    },
                    NextStep::Eof => false,
                }
            }),
    {
        proof {
            reveal_strlit(".");
            assert("."@ =~= seq!['.']);
        }
        let from_dot = crate::token::str_eq(s.as_str(), ".");
        let start = self.get_current_location();
        let start_pos: usize = self.pos;
        let ghost src0 = self.src();
        let mut seen_dot = false;
        let mut second_dot = false;
        loop
            invariant_except_break
                !second_dot,
            invariant
                self.wf(),
                self.src() == src0,
                start_pos <= self.cursor() <= self.src().len(),
                number_scan(src0, start_pos as int, false) == number_scan(
                    src0,
                    self.cursor(),
                    seen_dot,
                ),
                seen_dot == has_dot(src0, start_pos as int, self.cursor()),
            ensures
                self.wf(),
                self.src() == src0,
                second_dot ==> number_scan(src0, start_pos as int, false) == (
                NumScan::SecondDot { at: self.cursor() }),
                !second_dot ==> number_scan(src0, start_pos as int, false) == (NumScan::Done {
                    end: self.cursor(),
                }),
                seen_dot == has_dot(src0, start_pos as int, self.cursor()),
            decreases self.src().len() - self.cursor(),
        {
            match self.read_next_char() {
                Ok(c) => {
                    if c == '.' {
                        if seen_dot {
                            second_dot = true;
                            break;
                        }
                        let _ = self.take_next_char();
                        seen_dot = true;
                        proof {
                            assert(has_dot(self.src(), start_pos as int, self.cursor()));
                        }
                    } else if check_digit(c) {
                        let ghost prev = self.cursor();
                        let _ = self.take_next_char();
                        proof {
                            assert(forall|i: int|
                                start_pos <= i < self.cursor() && self.src()[i] == '.'
                                    ==> start_pos <= i < prev && self.src()[i] == '.');
                        }
                    } else {
                        break;
                    }
                },
                Err(_) => {
                    break;
                },
            }
        }
        if second_dot {
            return Err(Error::Lexer("Failed to parse".to_owned()));
        }
        if from_dot && seen_dot {
            return Err(Error::Lexer("Failed to parse number".to_owned()));
        }
        let run = self.source.as_str().substring_char(start_pos, self.pos);
        let text = s.concat(run);
        let end = self.get_current_location();
        Ok(Token { location: TokenLocation { start, end }, kind: Kind::Number(text) })
    }

    /// Consumes one character and greedily extends it to the longest
    /// recognized operator; a `.` directly followed by a digit hands over
    /// to the number scanner with the point as prefix.  Unrecognized
    /// characters degrade to a [`Symbol::Nothing`] token, so this routine
    /// itself never fails.
    #[verifier::rlimit(60)]
    fn read_symbol(&mut self) -> (r: Result<Token, Error>)
        requires
            old(self).wf(),
            old(self).cursor() < old(self).src().len(),
        ensures
            final(self).wf(),
            final(self).src() == old(self).src(),
            ({
                let src = old(self).src();
                match symbol_step(src, old(self).cursor()) {
                    NextStep::Tok { kind, start, end } => {
                        &&& final(self).cursor() == end
                        &&& r matches Ok(t) && t.location.start == loc_at(src, start)
                            && t.location.end == loc_at(src, end) && t.kind@ == kind
                    },
                    NextStep::Reject { end, msg } => {
                        &&& final(self).cursor() == end
                        &&& r matches Err(e) && e matches Error::Lexer(m) && m@ == msg
                    },
                    NextStep::Eof => false,
                }
            }),
    {
        let start = self.get_current_location();
        let mut symbol = Symbol::Nothing;
        let c = match self.take_next_char() {
            Ok(c) => c,
            Err(e) => {
                return Err(e);
            },
        };
        if c == '=' {
            symbol = Symbol::Assign;
            if self.take_next_char_if('=')? {
                symbol = Symbol::Eq;
                if self.take_next_char_if('=')? {
                    symbol = Symbol::SEq;
                }
            } else if self.take_next_char_if('>')? {
                symbol = Symbol::Arrow;
            }
        } else if c == '(' {
            symbol = Symbol::OpeningParen;
        } else if c == ')' {
            symbol = Symbol::ClosingParen;
        } else if c == '[' {
            symbol = Symbol::OpeningBoxBracket;
        } else if c == ']' {
            symbol = Symbol::ClosingBoxBracket;
        } else if c == '{' {
            symbol = Symbol::OpeningBrace;
        } else if c == '}' {
            symbol = Symbol::ClosingBrace;
        } else if c == '.' {
            symbol = Symbol::Dot;
            if self.take_next_char_if('.')? {
                if self.take_next_char_if('.')? {
                    symbol = Symbol::Spread;
                }
            } else {
                // A bare trailing point is still a Dot token: the operator
                // scanner never raises the exhaustion signal itself.
                let digit_next = match self.read_next_char() {
                    Ok(c2) => check_digit(c2),
                    Err(_) => false,
                };
                if digit_next {
                    proof {
                        reveal_strlit(".");
                        assert("."@ =~= seq!['.']);
                    }
                    return self.read_number(".".to_owned());
                }
            }
        } else if c == ';' {
            symbol = Symbol::SemiColon;
        } else if c == ',' {
            symbol = Symbol::Comma;
        } else if c == '?' {
            symbol = Symbol::Question;
        } else if c == ':' {
            symbol = Symbol::Colon;
        } else if c == '~' {
            symbol = Symbol::BitwiseNot;
        } else if c == '+' {
            symbol = Symbol::Add;
            if self.take_next_char_if('+')? {
                symbol = Symbol::Inc;
            } else if self.take_next_char_if('=')? {
                symbol = Symbol::AssignAdd;
            }
        } else if c == '-' {
            symbol = Symbol::Sub;
            if self.take_next_char_if('-')? {
                symbol = Symbol::Dec;
            } else if self.take_next_char_if('=')? {
                symbol = Symbol::AssignSub;
            }
        } else if c == '!' {
            symbol = Symbol::Not;
            if self.take_next_char_if('=')? {
                symbol = Symbol::Ne;
                if self.take_next_char_if('=')? {
                    symbol = Symbol::SNe;
                }
            }
        } else if c == '%' {
            symbol = Symbol::Mod;
            if self.take_next_char_if('=')? {
                symbol = Symbol::AssignMod;
            }
        } else if c == '^' {
            symbol = Symbol::Xor;
            if self.take_next_char_if('=')? {
                symbol = Symbol::AssignXor;
            }
        } else if c == '|' {
            symbol = Symbol::BitwiseOr;
            if self.take_next_char_if('|')? {
                symbol = Symbol::Or;
            } else if self.take_next_char_if('=')? {
                symbol = Symbol::AssignOr;
            }
        } else if c == '&' {
            symbol = Symbol::BitwiseAnd;
            if self.take_next_char_if('&')? {
                symbol = Symbol::And;
            } else if self.take_next_char_if('=')? {
                symbol = Symbol::AssignAnd;
            }
        } else if c == '*' {
            symbol = Symbol::Mul;
            if self.take_next_char_if('*')? {
                symbol = Symbol::Pow;
                if self.take_next_char_if('=')? {
                    symbol = Symbol::AssignPow;
                }
            } else if self.take_next_char_if('=')? {
                symbol = Symbol::AssignMul;
            }
        } else if c == '<' {
            symbol = Symbol::Lt;
            if self.take_next_char_if('<')? {
                symbol = Symbol::Shl;
                if self.take_next_char_if('=')? {
                    symbol = Symbol::AssignShl;
                }
            } else if self.take_next_char_if('=')? {
                symbol = Symbol::Le;
            }
        } else if c == '>' {
            symbol = Symbol::Gt;
            if self.take_next_char_if('>')? {
                symbol = Symbol::Shr;
                if self.take_next_char_if('>')? {
                    symbol = Symbol::ZFShr;
                    if self.take_next_char_if('=')? {
                        symbol = Symbol::AssignZFShr;
                    }
                } else if self.take_next_char_if('=')? {
                    symbol = Symbol::AssignShr;
                }
            } else if self.take_next_char_if('=')? {
                symbol = Symbol::Ge;
            }
        }
        let end = self.get_current_location();
        Ok(Token { location: TokenLocation { start, end }, kind: Kind::Symbol(symbol) })
    }

    /// Produces the next token, skipping whitespace, or signals the end
    /// of the input with `EOF`.  Exactly one call of the model's
    /// [`next_step`] on the state at entry.
    pub fn tokenize(&mut self) -> (r: Result<Token, Error>)
        requires
            old(self).wf(),
        ensures
            final(self).wf(),
            final(self).src() == old(self).src(),
            ({
                let src = old(self).src();
                match next_step(src, old(self).cursor()) {
                    NextStep::Eof => {
                        &&& r == Err::<Token, Error>(Error::EOF)
                        &&& final(self).cursor() == src.len()
                    },
                    NextStep::Tok { kind, start, end } => {
                        &&& final(self).cursor() == end
                        &&& r matches Ok(t) && t.location.start == loc_at(src, start)
                            && t.location.end == loc_at(src, end) && t.kind@ == kind
                    },
                    NextStep::Reject { end, msg } => {
                        &&& final(self).cursor() == end
                        &&& r matches Err(e) && e matches Error::Lexer(m) && m@ == msg
                    },
                }
            }),
        decreases old(self).src().len() - old(self).cursor(),
    {
        let c = match self.read_next_char() {
            Ok(c) => c,
            Err(e) => {
                return Err(e);
            },
        };
        if check_id_start(c) {
            self.read_identifier()
        } else if check_digit(c) {
            self.read_number(String::new())
        } else if check_space(c) {
            proof {
                lemma_space_end(self.src(), self.cursor());
            }
            let _ = self.read_whitespaces();
            self.tokenize()
        } else {
            self.read_symbol()
        }
    }
}

} // verus!
