//! Token values produced by the scanner: locations, spans, token kinds,
//! and the fixed keyword table.

use vstd::prelude::*;
use vstd::string::StrSliceExecFns;

verus! {

/// A single point in the source text: 1-based line, with the column
/// advanced once per consumed character and reset to 0 after a newline.
#[derive(Clone, Copy, Debug, PartialEq, Eq, Structural)]
pub struct Location {
    pub line: usize,
    pub col: usize,
}

/// The half-open span of characters a token was scanned from: `start` is
/// the cursor position before the first consumed character and `end` the
/// position immediately after the last one.
#[derive(Clone, Copy, Debug, PartialEq, Eq, Structural)]
pub struct TokenLocation {
    pub start: Location,
    pub end: Location,
}

/// Operator and punctuation tags, one per recognized operator.
#[derive(Clone, Copy, Debug, PartialEq, Eq, Structural)]
pub enum Symbol {
    OpeningParen,
    ClosingParen,
    OpeningBoxBracket,
    ClosingBoxBracket,
    OpeningBrace,
    ClosingBrace,
    Dot,
    Spread,
    SemiColon,
    Comma,
    Lt,
    Gt,
    Le,
    Ge,
    Assign,
    Eq,
    SEq,
    Ne,
    SNe,
    Arrow,
    Inc,
    Dec,
    Add,
    Sub,
    Mul,
    Mod,
    Pow,
    Shl,
    Shr,
    ZFShr,
    And,
    Or,
    BitwiseAnd,
    BitwiseOr,
    Xor,
    BitwiseNot,
    Not,
    Question,
    Colon,
    AssignShl,
    AssignShr,
    AssignZFShr,
    AssignAdd,
    AssignSub,
    AssignMul,
    AssignMod,
    AssignPow,
    AssignAnd,
    AssignOr,
    AssignXor,
    /// Sentinel for a character the operator scanner does not recognize;
    /// such a character degrades to this tag instead of raising an error.
    Nothing,
}

/// The reserved words of the language family being tokenized.
#[derive(Clone, Copy, Debug, PartialEq, Eq, Structural)]
pub enum Keyword {
    Await,
    Break,
    Case,
    Catch,
    Class,
    Const,
    Continue,
    Debugger,
    Default,
    Delete,
    Do,
    Else,
    Export,
    Extends,
    Finally,
    For,
    Function,
    If,
    Import,
    In,
    Instanceof,
    New,
    Return,
    Super,
    Switch,
    This,
    Throw,
    Try,
    Typeof,
    Var,
    Void,
    While,
    With,
    Yield,
}

/// What a token is.  A `Number` carries the literal text exactly as it was
/// consumed (digits and at most one decimal point); converting that text to
/// a machine float is left to the consumer, so the scanner itself stays
/// free of floating point.  `String` is declared for quoted literals but no
/// scan routine produces it yet.
#[derive(Clone, Debug, PartialEq)]
pub enum Kind {
    Keyword(Keyword),
    String(String),
    Number(String),
    Identifier(String),
    Symbol(Symbol),
}

/// The mathematical value of a [`Kind`]: the same variants with every
/// carried text abstracted to its character sequence.
pub enum KindModel {
    Keyword(Keyword),
    StrLit(Seq<char>),
    Number(Seq<char>),
    Identifier(Seq<char>),
    Symbol(Symbol),
}

impl View for Kind {
    type V = KindModel;

    open spec fn view(&self) -> KindModel {
        match self {
            Kind::Keyword(k) => KindModel::Keyword(*k),
            Kind::String(s) => KindModel::StrLit(s@),
            Kind::Number(s) => KindModel::Number(s@),
            Kind::Identifier(s) => KindModel::Identifier(s@),
            Kind::Symbol(s) => KindModel::Symbol(*s),
        }
    }
}

/// A classified, located unit of lexical meaning.
#[derive(Clone, Debug, PartialEq)]
pub struct Token {
    pub location: TokenLocation,
    pub kind: Kind,
}

impl Token {
    pub fn new_keyword(location: TokenLocation, keyword: Kind) -> (t: Token)
        ensures
            t.location == location,
            t.kind == keyword,
    {
        Token { location, kind: keyword }
    }

    pub fn new_identifier(location: TokenLocation, name: String) -> (t: Token)
        ensures
            t.location == location,
            t.kind@ == KindModel::Identifier(name@),
    {
        Token { location, kind: Kind::Identifier(name) }
    }
}

/// The keyword tag for `name`, or `None` when `name` is not one of the
/// reserved words.  [`to_keyword`] computes exactly this.
pub open spec fn spec_to_keyword(name: Seq<char>) -> Option<Keyword> {
    if name == "await"@ {
        Some(Keyword::Await)
    } else if name == "break"@ {
        Some(Keyword::Break)
    } else if name == "case"@ {
        Some(Keyword::Case)
    } else if name == "catch"@ {
        Some(Keyword::Catch)
    } else if name == "class"@ {
        Some(Keyword::Class)
    } else if name == "const"@ {
        Some(Keyword::Const)
    } else if name == "continue"@ {
        Some(Keyword::Continue)
    } else if name == "debugger"@ {
        Some(Keyword::Debugger)
    } else if name == "default"@ {
        Some(Keyword::Default)
    } else if name == "delete"@ {
        Some(Keyword::Delete)
    } else if name == "do"@ {
        Some(Keyword::Do)
    } else if name == "else"@ {
        Some(Keyword::Else)
    } else if name == "export"@ {
        Some(Keyword::Export)
    } else if name == "extends"@ {
        Some(Keyword::Extends)
    } else if name == "finally"@ {
        Some(Keyword::Finally)
    } else if name == "for"@ {
        Some(Keyword::For)
    } else if name == "function"@ {
        Some(Keyword::Function)
    } else if name == "if"@ {
        Some(Keyword::If)
    } else if name == "import"@ {
        Some(Keyword::Import)
    } else if name == "in"@ {
        Some(Keyword::In)
    } else if name == "instanceof"@ {
        Some(Keyword::Instanceof)
    } else if name == "new"@ {
        Some(Keyword::New)
    } else if name == "return"@ {
        Some(Keyword::Return)
    } else if name == "super"@ {
        Some(Keyword::Super)
    } else if name == "switch"@ {
        Some(Keyword::Switch)
    } else if name == "this"@ {
        Some(Keyword::This)
    } else if name == "throw"@ {
        Some(Keyword::Throw)
    } else if name == "try"@ {
        Some(Keyword::Try)
    } else if name == "typeof"@ {
        Some(Keyword::Typeof)
    } else if name == "var"@ {
        Some(Keyword::Var)
    } else if name == "void"@ {
        Some(Keyword::Void)
    } else if name == "while"@ {
        Some(Keyword::While)
    } else if name == "with"@ {
        Some(Keyword::With)
    } else if name == "yield"@ {
        Some(Keyword::Yield)
    } else {
        None
    }
}

/// Character-by-character string equality.
pub(crate) fn str_eq(a: &str, b: &str) -> (r: bool)
    ensures
        r == (a@ == b@),
{
    let a_len = a.unicode_len();
    let b_len = b.unicode_len();
    if a_len != b_len {
        return false;
    }
    for i in 0..a_len
        invariant
            a_len == a@.len(),
            b_len == b@.len(),
            a_len == b_len,
            forall|j: int| 0 <= j < i ==> a@[j] == b@[j],
    {
        if a.get_char(i) != b.get_char(i) {
            return false;
        }
    }
    proof {
        assert(a@ =~= b@);
    }
    true
}

/// Looks `text` up in the fixed keyword table: an exact, case-sensitive
/// string match against each reserved word.
pub fn to_keyword(text: &str) -> (r: Option<Keyword>)
    ensures
        r == spec_to_keyword(text@),
{
    if str_eq(text, "await") {
        Some(Keyword::Await)
    } else if str_eq(text, "break") {
        Some(Keyword::Break)
    } else if str_eq(text, "case") {
        Some(Keyword::Case)
    } else if str_eq(text, "catch") {
        Some(Keyword::Catch)
    } else if str_eq(text, "class") {
        Some(Keyword::Class)
    } else if str_eq(text, "const") {
        Some(Keyword::Const)
    } else if str_eq(text, "continue") {
        Some(Keyword::Continue)
    } else if str_eq(text, "debugger") {
        Some(Keyword::Debugger)
    } else if str_eq(text, "default") {
        Some(Keyword::Default)
    } else if str_eq(text, "delete") {
        Some(Keyword::Delete)
    } else if str_eq(text, "do") {
        Some(Keyword::Do)
    } else if str_eq(text, "else") {
        Some(Keyword::Else)
    } else if str_eq(text, "export") {
        Some(Keyword::Export)
    } else if str_eq(text, "extends") {
        Some(Keyword::Extends)
    } else if str_eq(text, "finally") {
        Some(Keyword::Finally)
    } else if str_eq(text, "for") {
        Some(Keyword::For)
    } else if str_eq(text, "function") {
        Some(Keyword::Function)
    } else if str_eq(text, "if") {
        Some(Keyword::If)
    } else if str_eq(text, "import") {
        Some(Keyword::Import)
    } else if str_eq(text, "in") {
        Some(Keyword::In)
    } else if str_eq(text, "instanceof") {
        Some(Keyword::Instanceof)
    } else if str_eq(text, "new") {
        Some(Keyword::New)
    } else if str_eq(text, "return") {
        Some(Keyword::Return)
    } else if str_eq(text, "super") {
        Some(Keyword::Super)
    } else if str_eq(text, "switch") {
        Some(Keyword::Switch)
    } else if str_eq(text, "this") {
        Some(Keyword::This)
    } else if str_eq(text, "throw") {
        Some(Keyword::Throw)
    } else if str_eq(text, "try") {
        Some(Keyword::Try)
    } else if str_eq(text, "typeof") {
        Some(Keyword::Typeof)
    } else if str_eq(text, "var") {
        Some(Keyword::Var)
    } else if str_eq(text, "void") {
        Some(Keyword::Void)
    } else if str_eq(text, "while") {
        Some(Keyword::While)
    } else if str_eq(text, "with") {
        Some(Keyword::With)
    } else if str_eq(text, "yield") {
        Some(Keyword::Yield)
    } else {
        None
    }
}

} // verus!
