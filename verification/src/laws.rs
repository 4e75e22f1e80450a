//! Laws of the scanner as a whole, proved over the model in
//! [`crate::model`].  Together with the contract of
//! [`crate::lexer::Lexer::tokenize`] — one call performs exactly one
//! [`next_step`] — each law carries over to the executable scanner.

use vstd::prelude::*;
use crate::model::{
    has_dot, ident_end, ident_kind, is_digit, is_id_continue, is_id_start, is_space,
    next_step, number_scan, number_step, space_end, symbol_step, token_kinds, NextStep, NumScan,
};
use crate::token::{Keyword, KindModel, Symbol, spec_to_keyword};

verus! {

// ---------------------------------------------------------------------
// Locality: a scan depends only on the source from the cursor on
// ---------------------------------------------------------------------

/// The sources `s` after `p` and `t` after `q` hold the same characters.
pub open spec fn tail_eq(s: Seq<char>, p: int, t: Seq<char>, q: int) -> bool {
    &&& 0 <= p <= s.len()
    &&& 0 <= q <= t.len()
    &&& s.len() - p == t.len() - q
    &&& forall|i: int| 0 <= i < s.len() - p ==> #[trigger] s[p + i] == #[trigger] t[q + i]
}

/// The same scan outcome with every position moved by `d`.
pub open spec fn step_shift(a: NextStep, d: int) -> NextStep {
    match a {
        NextStep::Eof => NextStep::Eof,
        NextStep::Tok { kind, start, end } => NextStep::Tok {
            kind,
            start: start + d,
            end: end + d,
        },
        NextStep::Reject { end, msg } => NextStep::Reject { end: end + d, msg },
    }
}

proof fn lemma_tail_eq_advance(s: Seq<char>, p: int, t: Seq<char>, q: int, d: int)
    requires
        tail_eq(s, p, t, q),
        0 <= d <= s.len() - p,
    ensures
        tail_eq(s, p + d, t, q + d),
{
    assert forall|i: int| 0 <= i < s.len() - (p + d) implies #[trigger] s[p + d + i] == t[q + d + i] by {
        assert(s[p + (d + i)] == t[q + (d + i)]);
    }
}

proof fn lemma_space_end_tail(s: Seq<char>, p: int, t: Seq<char>, q: int)
    requires
        tail_eq(s, p, t, q),
    ensures
        space_end(t, q) == space_end(s, p) - p + q,
    decreases s.len() - p,
{
    if p < s.len() {
        assert(s[p + 0] == t[q + 0]);
        if is_space(s[p]) {
            lemma_tail_eq_advance(s, p, t, q, 1);
            lemma_space_end_tail(s, p + 1, t, q + 1);
        }
    }
}

proof fn lemma_ident_end_tail(s: Seq<char>, p: int, t: Seq<char>, q: int)
    requires
        tail_eq(s, p, t, q),
    ensures
        ident_end(t, q) == ident_end(s, p) - p + q,
    decreases s.len() - p,
{
    if p < s.len() {
        assert(s[p + 0] == t[q + 0]);
        if is_id_continue(s[p]) {
            lemma_tail_eq_advance(s, p, t, q, 1);
            lemma_ident_end_tail(s, p + 1, t, q + 1);
        }
    }
}

proof fn lemma_number_scan_tail(s: Seq<char>, p: int, t: Seq<char>, q: int, seen_dot: bool)
    requires
        tail_eq(s, p, t, q),
    ensures
        number_scan(t, q, seen_dot) == (match number_scan(s, p, seen_dot) {
            NumScan::Done { end } => NumScan::Done { end: end - p + q },
            NumScan::SecondDot { at } => NumScan::SecondDot { at: at - p + q },
        }),
    decreases s.len() - p,
{
    if p < s.len() {
        assert(s[p + 0] == t[q + 0]);
        if s[p] == '.' && !seen_dot {
            lemma_tail_eq_advance(s, p, t, q, 1);
            lemma_number_scan_tail(s, p + 1, t, q + 1, true);
        } else if s[p] != '.' && is_digit(s[p]) {
            lemma_tail_eq_advance(s, p, t, q, 1);
            lemma_number_scan_tail(s, p + 1, t, q + 1, seen_dot);
        }
    }
}

proof fn lemma_number_step_tail(s: Seq<char>, p: int, t: Seq<char>, q: int, from_dot: bool)
    requires
        tail_eq(s, p, t, q),
    ensures
        number_step(t, q, from_dot) == step_shift(number_step(s, p, from_dot), q - p),
{
    lemma_number_scan_tail(s, p, t, q, false);
    crate::model::lemma_number_scan(s, p, false);
    match number_scan(s, p, false) {
        NumScan::SecondDot { at } => {
        },
        NumScan::Done { end } => {
            let end2 = end - p + q;
            assert(has_dot(s, p, end) ==> has_dot(t, q, end2)) by {
                if has_dot(s, p, end) {
                    let i = choose|i: int| p <= i < end && s[i] == '.';
                    assert(s[p + (i - p)] == t[q + (i - p)]);
                    assert(t[q + (i - p)] == '.');
                }
            }
            assert(has_dot(t, q, end2) ==> has_dot(s, p, end)) by {
                if has_dot(t, q, end2) {
                    let i = choose|i: int| q <= i < end2 && t[i] == '.';
                    assert(s[p + (i - q)] == t[q + (i - q)]);
                    assert(s[p + (i - q)] == '.');
                }
            }
            assert(t.subrange(q, end2) =~= s.subrange(p, end)) by {
                assert forall|i: int| 0 <= i < end - p implies #[trigger] s.subrange(p, end)[i] == t.subrange(
                    q,
                    end2,
                )[i] by {
                    assert(s[p + i] == t[q + i]);
                }
            }
        },
    }
}

#[verifier::rlimit(100)]
proof fn lemma_symbol_step_tail(s: Seq<char>, p: int, t: Seq<char>, q: int)
    requires
        tail_eq(s, p, t, q),
        p < s.len(),
    ensures
        symbol_step(t, q) == step_shift(symbol_step(s, p), q - p),
{
    assert(s[p + 0] == t[q + 0]);
    assert forall|c: char| #[trigger] crate::model::at(s, p + 1, c) == crate::model::at(t, q + 1, c) by {
        if p + 1 < s.len() {
            assert(s[p + 1] == t[q + 1]);
        }
    }
    assert forall|c: char| #[trigger] crate::model::at(s, p + 2, c) == crate::model::at(t, q + 2, c) by {
        if p + 2 < s.len() {
            assert(s[p + 2] == t[q + 2]);
        }
    }
    assert forall|c: char| #[trigger] crate::model::at(s, p + 3, c) == crate::model::at(t, q + 3, c) by {
        if p + 3 < s.len() {
            assert(s[p + 3] == t[q + 3]);
        }
    }
    if p + 1 < s.len() {
        assert(s[p + 1] == t[q + 1]);
    }
    if s[p] == '.' && !crate::model::at(s, p + 1, '.') && p + 1 < s.len() && is_digit(s[p + 1]) {
        lemma_tail_eq_advance(s, p, t, q, 1);
        lemma_number_step_tail(s, p + 1, t, q + 1, true);
    }
}

/// What "produce next token" does depends only on the source from the
/// cursor on: scanning the same remaining text at another position, or
/// inside another buffer, gives the same outcome with every position
/// shifted alike.
pub proof fn lemma_next_step_tail(s: Seq<char>, p: int, t: Seq<char>, q: int)
    requires
        tail_eq(s, p, t, q),
    ensures
        next_step(t, q) == step_shift(next_step(s, p), q - p),
{
    lemma_space_end_tail(s, p, t, q);
    let p1 = space_end(s, p);
    let q1 = p1 - p + q;
    crate::model::lemma_space_end(s, p);
    lemma_tail_eq_advance(s, p, t, q, p1 - p);
    if p1 < s.len() {
        assert(s[p1 + 0] == t[q1 + 0]);
        if is_id_start(s[p1]) {
            lemma_ident_end_tail(s, p1, t, q1);
            let e = ident_end(s, p1);
            let e2 = e - p1 + q1;
            assert(t.subrange(q1, e2) =~= s.subrange(p1, e)) by {
                crate::model::lemma_ident_end(s, p1);
                assert forall|i: int| 0 <= i < e - p1 implies #[trigger] s.subrange(p1, e)[i] == t.subrange(
                    q1,
                    e2,
                )[i] by {
                    assert(s[p1 + i] == t[q1 + i]);
                }
            }
        } else if is_digit(s[p1]) {
            lemma_number_step_tail(s, p1, t, q1, false);
        } else {
            lemma_symbol_step_tail(s, p1, t, q1);
        }
    }
}

// ---------------------------------------------------------------------
// Helper facts about full runs
// ---------------------------------------------------------------------

proof fn lemma_ident_end_all(s: Seq<char>, pos: int)
    requires
        0 <= pos <= s.len(),
        forall|i: int| pos <= i < s.len() ==> is_id_continue(s[i]),
    ensures
        ident_end(s, pos) == s.len(),
    decreases s.len() - pos,
{
    if pos < s.len() {
        lemma_ident_end_all(s, pos + 1);
    }
}

/// A word of ASCII lowercase letters scans as one maximal identifier run.
proof fn lemma_lower_word(s: Seq<char>)
    requires
        s.len() > 0,
        forall|i: int| 0 <= i < s.len() ==> 'a' <= s[i] && s[i] <= 'z',
    ensures
        next_step(s, 0) == (NextStep::Tok {
            kind: ident_kind(s, 0),
            start: 0,
            end: s.len() as int,
        }),
{
    assert(forall|i: int| 0 <= i < s.len() ==> is_id_continue(s[i]));
    lemma_ident_end_all(s, 0);
    assert(space_end(s, 0) == 0);
}

// ---------------------------------------------------------------------
// Keyword/identifier disjointness
// ---------------------------------------------------------------------

/// Tokenizing a reserved word alone yields exactly one Keyword token with
/// the matching tag, spanning the whole input.
pub proof fn lemma_keyword_token(s: Seq<char>, k: Keyword)
    requires
        spec_to_keyword(s) == Some(k),
    ensures
        next_step(s, 0) == (NextStep::Tok {
            kind: KindModel::Keyword(k),
            start: 0,
            end: s.len() as int,
        }),
{
    if s == "await"@ {
        reveal_strlit("await");
    } else if s == "break"@ {
        reveal_strlit("break");
    } else if s == "case"@ {
        reveal_strlit("case");
    } else if s == "catch"@ {
        reveal_strlit("catch");
    } else if s == "class"@ {
        reveal_strlit("class");
    } else if s == "const"@ {
        reveal_strlit("const");
    } else if s == "continue"@ {
        reveal_strlit("continue");
    } else if s == "debugger"@ {
        reveal_strlit("debugger");
    } else if s == "default"@ {
        reveal_strlit("default");
    } else if s == "delete"@ {
        reveal_strlit("delete");
    } else if s == "do"@ {
        reveal_strlit("do");
    } else if s == "else"@ {
        reveal_strlit("else");
    } else if s == "export"@ {
        reveal_strlit("export");
    } else if s == "extends"@ {
        reveal_strlit("extends");
    } else if s == "finally"@ {
        reveal_strlit("finally");
    } else if s == "for"@ {
        reveal_strlit("for");
    } else if s == "function"@ {
        reveal_strlit("function");
    } else if s == "if"@ {
        reveal_strlit("if");
    } else if s == "import"@ {
        reveal_strlit("import");
    } else if s == "in"@ {
        reveal_strlit("in");
    } else if s == "instanceof"@ {
        reveal_strlit("instanceof");
    } else if s == "new"@ {
        reveal_strlit("new");
    } else if s == "return"@ {
        reveal_strlit("return");
    } else if s == "super"@ {
        reveal_strlit("super");
    } else if s == "switch"@ {
        reveal_strlit("switch");
    } else if s == "this"@ {
        reveal_strlit("this");
    } else if s == "throw"@ {
        reveal_strlit("throw");
    } else if s == "try"@ {
        reveal_strlit("try");
    } else if s == "typeof"@ {
        reveal_strlit("typeof");
    } else if s == "var"@ {
        reveal_strlit("var");
    } else if s == "void"@ {
        reveal_strlit("void");
    } else if s == "while"@ {
        reveal_strlit("while");
    } else if s == "with"@ {
        reveal_strlit("with");
    } else {
        assert(s == "yield"@);
        reveal_strlit("yield");
    }
    assert(s.len() > 0);
    assert(forall|i: int| 0 <= i < s.len() ==> 'a' <= s[i] && s[i] <= 'z');
    lemma_lower_word(s);
    assert(s.subrange(0, s.len() as int) =~= s);
}

/// Any other string of identifier characters, starting with an
/// identifier-start character and matching no reserved word, yields one
/// Identifier token carrying exactly that string.
pub proof fn lemma_identifier_token(s: Seq<char>)
    requires
        s.len() > 0,
        is_id_start(s[0]),
        ident_end(s, 0) == s.len(),
        spec_to_keyword(s) is None,
    ensures
        next_step(s, 0) == (NextStep::Tok {
            kind: KindModel::Identifier(s),
            start: 0,
            end: s.len() as int,
        }),
{
    assert(space_end(s, 0) == 0);
    assert(s.subrange(0, s.len() as int) =~= s);
}

// ---------------------------------------------------------------------
// Numeric literals
// ---------------------------------------------------------------------

proof fn lemma_number_scan_all(s: Seq<char>, pos: int, seen_dot: bool)
    requires
        0 <= pos <= s.len(),
        forall|i: int| pos <= i < s.len() ==> is_digit(s[i]) || s[i] == '.',
        seen_dot ==> !has_dot(s, pos, s.len() as int),
        !seen_dot ==> forall|i: int, j: int|
            pos <= i < j < s.len() && s[i] == '.' ==> s[j] != '.',
    ensures
        number_scan(s, pos, seen_dot) == (NumScan::Done { end: s.len() as int }),
    decreases s.len() - pos,
{
    if pos < s.len() {
        if s[pos] == '.' {
            assert(!seen_dot);
            assert(!has_dot(s, pos + 1, s.len() as int));
            lemma_number_scan_all(s, pos + 1, true);
        } else {
            lemma_number_scan_all(s, pos + 1, seen_dot);
        }
    }
}

/// A digit-initial string of digits with at most one decimal point
/// tokenizes as exactly one Number token carrying the whole string.
pub proof fn lemma_number_token(s: Seq<char>)
    requires
        s.len() > 0,
        is_digit(s[0]),
        forall|i: int| 0 <= i < s.len() ==> is_digit(s[i]) || s[i] == '.',
        forall|i: int, j: int| 0 <= i < j < s.len() && s[i] == '.' ==> s[j] != '.',
    ensures
        next_step(s, 0) == (NextStep::Tok {
            kind: KindModel::Number(s),
            start: 0,
            end: s.len() as int,
        }),
{
    assert(space_end(s, 0) == 0);
    lemma_number_scan_all(s, 0, false);
    assert(s.subrange(0, s.len() as int) =~= s);
}

proof fn lemma_number_scan_second_dot(s: Seq<char>, pos: int)
    requires
        0 <= pos <= s.len(),
        forall|i: int| pos <= i < s.len() ==> is_digit(s[i]) || s[i] == '.',
        has_dot(s, pos, s.len() as int),
    ensures
        number_scan(s, pos, true) is SecondDot,
    decreases s.len() - pos,
{
    if s[pos] != '.' {
        lemma_number_scan_second_dot(s, pos + 1);
    }
}

proof fn lemma_number_scan_two_dots(s: Seq<char>, pos: int)
    requires
        0 <= pos <= s.len(),
        forall|i: int| pos <= i < s.len() ==> is_digit(s[i]) || s[i] == '.',
        exists|i: int, j: int| pos <= i < j < s.len() && s[i] == '.' && s[j] == '.',
    ensures
        number_scan(s, pos, false) is SecondDot,
    decreases s.len() - pos,
{
    let (i, j) = choose|i: int, j: int| pos <= i < j < s.len() && s[i] == '.' && s[j] == '.';
    if s[pos] == '.' {
        assert(has_dot(s, pos + 1, s.len() as int)) by {
            if i == pos {
                assert(s[j] == '.');
            } else {
                assert(s[i] == '.');
            }
        }
        lemma_number_scan_second_dot(s, pos + 1);
    } else {
        lemma_number_scan_two_dots(s, pos + 1);
    }
}

/// A digit-initial string of digits holding two or more decimal points is
/// rejected as a malformed number.
pub proof fn lemma_number_malformed(s: Seq<char>)
    requires
        s.len() > 0,
        is_digit(s[0]),
        forall|i: int| 0 <= i < s.len() ==> is_digit(s[i]) || s[i] == '.',
        exists|i: int, j: int| 0 <= i < j < s.len() && s[i] == '.' && s[j] == '.',
    ensures
        next_step(s, 0) matches NextStep::Reject { end: _, msg: m } && m == "Failed to parse"@,
{
    assert(space_end(s, 0) == 0);
    lemma_number_scan_two_dots(s, 0);
}

// ---------------------------------------------------------------------
// Maximal munch
// ---------------------------------------------------------------------

/// Three equality signs are one strict-equality token — never `==`
/// followed by `=`, nor three `=` in a row.
pub proof fn lemma_maximal_munch_triple(s: Seq<char>)
    requires
        s == "==="@,
    ensures
        next_step(s, 0) == (NextStep::Tok {
            kind: KindModel::Symbol(Symbol::SEq),
            start: 0,
            end: 3,
        }),
{
    reveal_strlit("===");
    assert(space_end(s, 0) == 0);
}

// ---------------------------------------------------------------------
// Whitespace transparency
// ---------------------------------------------------------------------

proof fn lemma_space_run(c: Seq<char>, i: int, m: int)
    requires
        0 <= i <= m <= c.len(),
        forall|j: int| i <= j < m ==> is_space(c[j]),
    ensures
        space_end(c, i) == space_end(c, m),
    decreases m - i,
{
    if i < m {
        lemma_space_run(c, i + 1, m);
    }
}

/// Whitespace in front of a token is transparent: prepending a run of
/// whitespace characters changes only the recorded positions of the next
/// scan outcome, never its kind.
pub proof fn lemma_whitespace_transparent(u: Seq<char>, s: Seq<char>)
    requires
        forall|i: int| 0 <= i < u.len() ==> is_space(u[i]),
    ensures
        next_step(u + s, 0) == step_shift(next_step(s, 0), u.len() as int),
{
    let c = u + s;
    assert(forall|j: int| 0 <= j < u.len() ==> is_space(c[j]));
    lemma_space_run(c, 0, u.len() as int);
    assert(tail_eq(s, 0, c, u.len() as int)) by {
        assert(forall|i: int| 0 <= i < s.len() ==> c[u.len() + i] == s[i]);
    }
    lemma_next_step_tail(s, 0, c, u.len() as int);
}

/// Two sources that agree from their cursors on yield the very same
/// stream of token kinds.
pub proof fn lemma_token_kinds_tail(s: Seq<char>, p: int, t: Seq<char>, q: int)
    requires
        tail_eq(s, p, t, q),
    ensures
        token_kinds(t, q) == token_kinds(s, p),
    decreases s.len() - p,
{
    lemma_next_step_tail(s, p, t, q);
    crate::model::lemma_next_step_progress(s, p);
    match next_step(s, p) {
        NextStep::Eof => {
        },
        NextStep::Reject { .. } => {
        },
        NextStep::Tok { kind, start, end } => {
            lemma_tail_eq_advance(s, p, t, q, end - p);
            lemma_token_kinds_tail(s, end, t, end - p + q);
        },
    }
}

/// Whitespace transparency over the whole stream: a run of whitespace in
/// front of the source leaves the sequence of token kinds unchanged.
pub proof fn lemma_whitespace_transparent_stream(u: Seq<char>, s: Seq<char>)
    requires
        forall|i: int| 0 <= i < u.len() ==> is_space(u[i]),
    ensures
        token_kinds(u + s, 0) == token_kinds(s, 0),
{
    let c = u + s;
    lemma_whitespace_transparent(u, s);
    crate::model::lemma_next_step_progress(s, 0);
    match next_step(s, 0) {
        NextStep::Eof => {
        },
        NextStep::Reject { .. } => {
        },
        NextStep::Tok { kind, start, end } => {
            assert(tail_eq(s, end, c, end + u.len())) by {
                assert(forall|i: int| 0 <= i < s.len() ==> c[u.len() + i] == s[i]);
                assert forall|i: int| 0 <= i < s.len() - end implies #[trigger] s[end + i] == c[
                    end + u.len() + i
                ] by {
                    assert(c[u.len() + (end + i)] == s[end + i]);
                }
            }
            lemma_token_kinds_tail(s, end, c, end + u.len());
        },
    }
}

// ---------------------------------------------------------------------
// Operators in sequence
// ---------------------------------------------------------------------

/// A recognized operator followed by a space (or by nothing) still scans
/// to the same operator token: the space cannot extend the match.
#[verifier::rlimit(100)]
proof fn lemma_op_then_space(a: Seq<char>, tail: Seq<char>, sa: Symbol)
    requires
        next_step(a, 0) == (NextStep::Tok {
            kind: KindModel::Symbol(sa),
            start: 0,
            end: a.len() as int,
        }),
        tail.len() > 0 ==> tail[0] == ' ',
    ensures
        next_step(a + tail, 0) == (NextStep::Tok {
            kind: KindModel::Symbol(sa),
            start: 0,
            end: a.len() as int,
        }),
{
    let c = a + tail;
    if tail.len() == 0 {
        assert(c =~= a);
    } else {
        assert(forall|i: int| 0 <= i < a.len() ==> c[i] == a[i]);
        assert(c[a.len() as int] == ' ');
        crate::model::lemma_space_end(a, 0);
        assert(!is_id_start(a[0]) && !is_digit(a[0]) && !is_space(a[0])) by {
            if is_id_start(a[0]) || is_digit(a[0]) || is_space(a[0]) {
                assert(next_step(a, 0) != (NextStep::Tok {
                    kind: KindModel::Symbol(sa),
                    start: 0,
                    end: a.len() as int,
                }));
            }
        }
        assert(space_end(a, 0) == 0);
        assert(space_end(c, 0) == 0);
        assert(symbol_step(c, 0) == (NextStep::Tok {
            kind: KindModel::Symbol(sa),
            start: 0,
            end: a.len() as int,
        }));
    }
}

/// The operator strings of `ops`, joined by single spaces.
pub open spec fn join_spaced(ops: Seq<Seq<char>>) -> Seq<char>
    decreases ops.len(),
{
    if ops.len() == 0 {
        Seq::empty()
    } else if ops.len() == 1 {
        ops[0]
    } else {
        ops[0] + seq![' '] + join_spaced(ops.drop_first())
    }
}

/// Each `ops[k]` alone scans to exactly the one Symbol token `syms[k]`
/// covering the whole string.
pub open spec fn all_single_symbols(ops: Seq<Seq<char>>, syms: Seq<Symbol>) -> bool {
    &&& ops.len() == syms.len()
    &&& forall|k: int|
        0 <= k < ops.len() ==> #[trigger] next_step(ops[k], 0) == (NextStep::Tok {
            kind: KindModel::Symbol(syms[k]),
            start: 0,
            end: ops[k].len() as int,
        })
}

/// One recognized operator alone is a stream of exactly one Symbol kind.
proof fn lemma_single_symbol_stream(a: Seq<char>, sa: Symbol)
    requires
        next_step(a, 0) == (NextStep::Tok {
            kind: KindModel::Symbol(sa),
            start: 0,
            end: a.len() as int,
        }),
    ensures
        token_kinds(a, 0) == seq![KindModel::Symbol(sa)],
{
    lemma_eof_deterministic(a, a.len() as int);
    assert(token_kinds(a, a.len() as int) =~= Seq::<KindModel>::empty());
    assert(token_kinds(a, 0) =~= seq![KindModel::Symbol(sa)]);
}

/// A whole input composed solely of recognized operators, joined by
/// spaces, tokenizes to exactly the Symbol sequence the operators yield
/// in isolation: maximal munch is context-free across the boundaries.
#[verifier::rlimit(100)]
pub proof fn lemma_operator_sequence(ops: Seq<Seq<char>>, syms: Seq<Symbol>)
    requires
        all_single_symbols(ops, syms),
    ensures
        token_kinds(join_spaced(ops), 0) == syms.map(|k: int, s: Symbol| KindModel::Symbol(s)),
        forall|k: int|
            0 <= k < ops.len() ==> #[trigger] token_kinds(ops[k], 0) == seq![
                KindModel::Symbol(syms[k]),
            ],
    decreases ops.len(),
{
    let mapped = syms.map(|k: int, s: Symbol| KindModel::Symbol(s));
    assert forall|k: int| 0 <= k < ops.len() implies #[trigger] token_kinds(ops[k], 0) == seq![
        KindModel::Symbol(syms[k]),
    ] by {
        lemma_single_symbol_stream(ops[k], syms[k]);
    }
    if ops.len() == 0 {
        assert(token_kinds(join_spaced(ops), 0) =~= mapped);
    } else if ops.len() == 1 {
        assert(mapped =~= seq![KindModel::Symbol(syms[0])]);
    } else {
        let rest = ops.drop_first();
        let rsyms = syms.drop_first();
        assert(all_single_symbols(rest, rsyms)) by {
            assert forall|k: int| 0 <= k < rest.len() implies #[trigger] next_step(rest[k], 0)
                == (NextStep::Tok {
                kind: KindModel::Symbol(rsyms[k]),
                start: 0,
                end: rest[k].len() as int,
            }) by {
                assert(rest[k] == ops[k + 1]);
                assert(rsyms[k] == syms[k + 1]);
            }
        }
        lemma_operator_sequence(rest, rsyms);
        let c = join_spaced(ops);
        let sep_rest = seq![' '] + join_spaced(rest);
        assert(c =~= ops[0] + sep_rest);
        lemma_op_then_space(ops[0], sep_rest, syms[0]);
        assert(next_step(c, 0) == (NextStep::Tok {
            kind: KindModel::Symbol(syms[0]),
            start: 0,
            end: ops[0].len() as int,
        }));
        assert(tail_eq(sep_rest, 0, c, ops[0].len() as int)) by {
            assert forall|i: int| 0 <= i < sep_rest.len() implies #[trigger] sep_rest[i] == c[
                ops[0].len() + i
            ] by {
            }
        }
        lemma_token_kinds_tail(sep_rest, 0, c, ops[0].len() as int);
        assert(forall|i: int| 0 <= i < 1 ==> is_space(seq![' '][i]));
        lemma_whitespace_transparent_stream(seq![' '], join_spaced(rest));
        assert(token_kinds(c, 0) == seq![KindModel::Symbol(syms[0])] + token_kinds(
            join_spaced(rest),
            0,
        ));
        assert(token_kinds(c, 0) =~= mapped) by {
            let rmapped = rsyms.map(|k: int, s: Symbol| KindModel::Symbol(s));
            assert(token_kinds(c, 0) == seq![KindModel::Symbol(syms[0])] + rmapped);
            assert(mapped.len() == 1 + rmapped.len());
            assert forall|k: int| 0 <= k < mapped.len() implies mapped[k] == (seq![
                KindModel::Symbol(syms[0]),
            ] + rmapped)[k] by {
                if k > 0 {
                    assert(rmapped[k - 1] == KindModel::Symbol(rsyms[k - 1]));
                    assert(rsyms[k - 1] == syms[k]);
                }
            }
        }
    }
}

// ---------------------------------------------------------------------
// End-of-input determinism
// ---------------------------------------------------------------------

/// Once the cursor sits at the end of the source, "produce next token"
/// signals end of input — and, since the scanner's contract leaves the
/// cursor at the end again, it does so on every later call as well.
pub proof fn lemma_eof_deterministic(src: Seq<char>, pos: int)
    requires
        pos == src.len(),
    ensures
        next_step(src, pos) == NextStep::Eof,
{
    assert(space_end(src, pos) == pos);
}

} // verus!
