use eslex::lexer::{Error, Lexer};
use eslex::token::{Keyword, Kind, Symbol};

#[test]
fn symbols() {
    let mut lexer = Lexer::new("{ } [ ] = ==".to_string());
    assert_eq!(lexer.tokenize().unwrap().kind, Kind::Symbol(Symbol::OpeningBrace));
    assert_eq!(lexer.tokenize().unwrap().kind, Kind::Symbol(Symbol::ClosingBrace));
    assert_eq!(lexer.tokenize().unwrap().kind, Kind::Symbol(Symbol::OpeningBoxBracket));
    assert_eq!(lexer.tokenize().unwrap().kind, Kind::Symbol(Symbol::ClosingBoxBracket));

    assert_eq!(lexer.tokenize().unwrap().kind, Kind::Symbol(Symbol::Assign));
    assert_eq!(lexer.tokenize().unwrap().kind, Kind::Symbol(Symbol::Eq));
}

#[test]
fn numbers() {
    let mut lexer = Lexer::new("123".to_string());
    let kind = lexer.tokenize().unwrap().kind;
    assert_eq!(kind, Kind::Number("123".to_string()));
    match kind {
        Kind::Number(text) => assert_eq!(text.parse::<f64>().unwrap(), 123 as f64),
        other => panic!("expected a number token, got {:?}", other),
    }
}

#[test]
fn keywords() {
    let mut lexer = Lexer::new(
        "await break case catch class const continue debugger  \
         default delete do else export extends finally for \
         function if import in instanceof new return super \
         switch this throw try typeof var void while with yield"
            .to_string(),
    );

    assert_eq!(lexer.tokenize().unwrap().kind, Kind::Keyword(Keyword::Await));
    assert_eq!(lexer.tokenize().unwrap().kind, Kind::Keyword(Keyword::Break));
    assert_eq!(lexer.tokenize().unwrap().kind, Kind::Keyword(Keyword::Case));
    assert_eq!(lexer.tokenize().unwrap().kind, Kind::Keyword(Keyword::Catch));
    assert_eq!(lexer.tokenize().unwrap().kind, Kind::Keyword(Keyword::Class));
    assert_eq!(lexer.tokenize().unwrap().kind, Kind::Keyword(Keyword::Const));

    assert_eq!(lexer.tokenize().unwrap().kind, Kind::Keyword(Keyword::Continue));
    assert_eq!(lexer.tokenize().unwrap().kind, Kind::Keyword(Keyword::Debugger));
    assert_eq!(lexer.tokenize().unwrap().kind, Kind::Keyword(Keyword::Default));
    assert_eq!(lexer.tokenize().unwrap().kind, Kind::Keyword(Keyword::Delete));
    assert_eq!(lexer.tokenize().unwrap().kind, Kind::Keyword(Keyword::Do));
    assert_eq!(lexer.tokenize().unwrap().kind, Kind::Keyword(Keyword::Else));
    assert_eq!(lexer.tokenize().unwrap().kind, Kind::Keyword(Keyword::Export));
    assert_eq!(lexer.tokenize().unwrap().kind, Kind::Keyword(Keyword::Extends));
    assert_eq!(lexer.tokenize().unwrap().kind, Kind::Keyword(Keyword::Finally));
    assert_eq!(lexer.tokenize().unwrap().kind, Kind::Keyword(Keyword::For));
    assert_eq!(lexer.tokenize().unwrap().kind, Kind::Keyword(Keyword::Function));
    assert_eq!(lexer.tokenize().unwrap().kind, Kind::Keyword(Keyword::If));
    assert_eq!(lexer.tokenize().unwrap().kind, Kind::Keyword(Keyword::Import));
    assert_eq!(lexer.tokenize().unwrap().kind, Kind::Keyword(Keyword::In));
    assert_eq!(lexer.tokenize().unwrap().kind, Kind::Keyword(Keyword::Instanceof));
    assert_eq!(lexer.tokenize().unwrap().kind, Kind::Keyword(Keyword::New));
    assert_eq!(lexer.tokenize().unwrap().kind, Kind::Keyword(Keyword::Return));
    assert_eq!(lexer.tokenize().unwrap().kind, Kind::Keyword(Keyword::Super));

    assert_eq!(lexer.tokenize().unwrap().kind, Kind::Keyword(Keyword::Switch));
    assert_eq!(lexer.tokenize().unwrap().kind, Kind::Keyword(Keyword::This));
    assert_eq!(lexer.tokenize().unwrap().kind, Kind::Keyword(Keyword::Throw));
    assert_eq!(lexer.tokenize().unwrap().kind, Kind::Keyword(Keyword::Try));
    assert_eq!(lexer.tokenize().unwrap().kind, Kind::Keyword(Keyword::Typeof));
    assert_eq!(lexer.tokenize().unwrap().kind, Kind::Keyword(Keyword::Var));
    assert_eq!(lexer.tokenize().unwrap().kind, Kind::Keyword(Keyword::Void));
    assert_eq!(lexer.tokenize().unwrap().kind, Kind::Keyword(Keyword::While));
    assert_eq!(lexer.tokenize().unwrap().kind, Kind::Keyword(Keyword::With));
    assert_eq!(lexer.tokenize().unwrap().kind, Kind::Keyword(Keyword::Yield));
}

#[test]
fn const_declaration() {
    let mut lexer = Lexer::new("const hello = 1.12;".to_string());
    assert_eq!(lexer.tokenize().unwrap().kind, Kind::Keyword(Keyword::Const));
    assert_eq!(lexer.tokenize().unwrap().kind, Kind::Identifier("hello".to_string()));
    assert_eq!(lexer.tokenize().unwrap().kind, Kind::Symbol(Symbol::Assign));
    let kind = lexer.tokenize().unwrap().kind;
    assert_eq!(kind, Kind::Number("1.12".to_string()));
    match kind {
        Kind::Number(text) => assert_eq!(text.parse::<f64>().unwrap(), 1.12),
        other => panic!("expected a number token, got {:?}", other),
    }
    assert_eq!(lexer.tokenize().unwrap().kind, Kind::Symbol(Symbol::SemiColon));
    assert_eq!(lexer.tokenize(), Err(Error::EOF));
}

#[test]
fn empty_input() {
    let mut lexer = Lexer::new("".to_string());
    assert_eq!(lexer.tokenize(), Err(Error::EOF));
}

#[test]
fn end_of_input_is_repeatable() {
    let mut lexer = Lexer::new("x".to_string());
    assert_eq!(lexer.tokenize().unwrap().kind, Kind::Identifier("x".to_string()));
    assert_eq!(lexer.tokenize(), Err(Error::EOF));
    assert_eq!(lexer.tokenize(), Err(Error::EOF));
    assert_eq!(lexer.tokenize(), Err(Error::EOF));
}

#[test]
fn second_dot_is_malformed() {
    let mut lexer = Lexer::new("1.2.3".to_string());
    assert_eq!(lexer.tokenize(), Err(Error::Lexer("Failed to parse".to_string())));
}

#[test]
fn dot_prefix_with_second_dot_is_malformed() {
    let mut lexer = Lexer::new(".1.2".to_string());
    assert_eq!(lexer.tokenize(), Err(Error::Lexer("Failed to parse number".to_string())));
}

#[test]
fn maximal_munch_triple_eq() {
    let mut lexer = Lexer::new("===".to_string());
    assert_eq!(lexer.tokenize().unwrap().kind, Kind::Symbol(Symbol::SEq));
    assert_eq!(lexer.tokenize(), Err(Error::EOF));
}

#[test]
fn operators_in_sequence_match_isolation() {
    let mut eq = Lexer::new("==".to_string());
    assert_eq!(eq.tokenize().unwrap().kind, Kind::Symbol(Symbol::Eq));
    let mut ne = Lexer::new("!=".to_string());
    assert_eq!(ne.tokenize().unwrap().kind, Kind::Symbol(Symbol::Ne));

    let mut both = Lexer::new("== !=".to_string());
    assert_eq!(both.tokenize().unwrap().kind, Kind::Symbol(Symbol::Eq));
    assert_eq!(both.tokenize().unwrap().kind, Kind::Symbol(Symbol::Ne));
    assert_eq!(both.tokenize(), Err(Error::EOF));
}

#[test]
fn whitespace_changes_only_locations() {
    let mut tight = Lexer::new("a = 1".to_string());
    let mut spread_out = Lexer::new("  a   =\t 1  ".to_string());
    for _ in 0..3 {
        let t1 = tight.tokenize().unwrap();
        let t2 = spread_out.tokenize().unwrap();
        assert_eq!(t1.kind, t2.kind);
    }
    assert_eq!(tight.tokenize(), Err(Error::EOF));
    assert_eq!(spread_out.tokenize(), Err(Error::EOF));
}

#[test]
fn newline_advances_line_and_resets_column() {
    let mut lexer = Lexer::new("ab\ncd".to_string());
    let first = lexer.tokenize().unwrap();
    assert_eq!(first.kind, Kind::Identifier("ab".to_string()));
    assert_eq!(first.location.start.line, 1);
    assert_eq!(first.location.start.col, 0);
    assert_eq!(first.location.end.line, 1);
    assert_eq!(first.location.end.col, 2);

    let second = lexer.tokenize().unwrap();
    assert_eq!(second.kind, Kind::Identifier("cd".to_string()));
    assert_eq!(second.location.start.line, 2);
    assert_eq!(second.location.start.col, 0);
    assert_eq!(second.location.end.line, 2);
    assert_eq!(second.location.end.col, 2);
}

#[test]
fn non_ascii_alphanumerics_continue_identifiers() {
    let mut lexer = Lexer::new("héllo wörld9".to_string());
    assert_eq!(lexer.tokenize().unwrap().kind, Kind::Identifier("héllo".to_string()));
    assert_eq!(lexer.tokenize().unwrap().kind, Kind::Identifier("wörld9".to_string()));
    assert_eq!(lexer.tokenize(), Err(Error::EOF));
}

#[test]
fn non_ascii_characters_cannot_start_identifiers() {
    let mut lexer = Lexer::new("über".to_string());
    assert_eq!(lexer.tokenize().unwrap().kind, Kind::Symbol(Symbol::Nothing));
    assert_eq!(lexer.tokenize().unwrap().kind, Kind::Identifier("ber".to_string()));
}

#[test]
fn dollar_and_underscore_identifiers() {
    let mut lexer = Lexer::new("$x _y z$_9".to_string());
    assert_eq!(lexer.tokenize().unwrap().kind, Kind::Identifier("$x".to_string()));
    assert_eq!(lexer.tokenize().unwrap().kind, Kind::Identifier("_y".to_string()));
    assert_eq!(lexer.tokenize().unwrap().kind, Kind::Identifier("z$_9".to_string()));
}

#[test]
fn keyword_prefix_is_an_identifier() {
    let mut lexer = Lexer::new("varx".to_string());
    assert_eq!(lexer.tokenize().unwrap().kind, Kind::Identifier("varx".to_string()));
}

#[test]
fn dot_variants() {
    let mut dot = Lexer::new(".".to_string());
    assert_eq!(dot.tokenize().unwrap().kind, Kind::Symbol(Symbol::Dot));

    let mut spread = Lexer::new("...".to_string());
    assert_eq!(spread.tokenize().unwrap().kind, Kind::Symbol(Symbol::Spread));

    let mut two_dots = Lexer::new("..".to_string());
    let t = two_dots.tokenize().unwrap();
    assert_eq!(t.kind, Kind::Symbol(Symbol::Dot));
    assert_eq!(t.location.end.col, 2);

    let mut fraction = Lexer::new(".5".to_string());
    let kind = fraction.tokenize().unwrap().kind;
    assert_eq!(kind, Kind::Number(".5".to_string()));
    match kind {
        Kind::Number(text) => assert_eq!(text.parse::<f64>().unwrap(), 0.5),
        other => panic!("expected a number token, got {:?}", other),
    }
}

#[test]
fn trailing_dot_stays_in_the_literal() {
    let mut lexer = Lexer::new("1.".to_string());
    let kind = lexer.tokenize().unwrap().kind;
    assert_eq!(kind, Kind::Number("1.".to_string()));
    match kind {
        Kind::Number(text) => assert_eq!(text.parse::<f64>().unwrap(), 1.0),
        other => panic!("expected a number token, got {:?}", other),
    }
}

#[test]
fn unrecognized_character_degrades_to_sentinel() {
    let mut lexer = Lexer::new("#".to_string());
    assert_eq!(lexer.tokenize().unwrap().kind, Kind::Symbol(Symbol::Nothing));
}

#[test]
fn operator_table_rows() {
    let mut lexer = Lexer::new(
        "< <= << <<= > >= >> >>= >>> ~ ^ ^= % %= & && &= | || |= \
         + ++ += - -- -= * *= ** ! != ? : ( ) ; ,"
            .to_string(),
    );
    let expected = [
        Symbol::Lt,
        Symbol::Le,
        Symbol::Shl,
        Symbol::AssignShl,
        Symbol::Gt,
        Symbol::Ge,
        Symbol::Shr,
        Symbol::AssignShr,
        Symbol::ZFShr,
        Symbol::BitwiseNot,
        Symbol::Xor,
        Symbol::AssignXor,
        Symbol::Mod,
        Symbol::AssignMod,
        Symbol::BitwiseAnd,
        Symbol::And,
        Symbol::AssignAnd,
        Symbol::BitwiseOr,
        Symbol::Or,
        Symbol::AssignOr,
        Symbol::Add,
        Symbol::Inc,
        Symbol::AssignAdd,
        Symbol::Sub,
        Symbol::Dec,
        Symbol::AssignSub,
        Symbol::Mul,
        Symbol::AssignMul,
        Symbol::Pow,
        Symbol::Not,
        Symbol::Ne,
        Symbol::Question,
        Symbol::Colon,
        Symbol::OpeningParen,
        Symbol::ClosingParen,
        Symbol::SemiColon,
        Symbol::Comma,
    ];
    for sym in expected {
        assert_eq!(lexer.tokenize().unwrap().kind, Kind::Symbol(sym));
    }
    assert_eq!(lexer.tokenize(), Err(Error::EOF));
}

#[test]
fn slash_is_not_recognized_yet() {
    let mut lexer = Lexer::new("/".to_string());
    assert_eq!(lexer.tokenize().unwrap().kind, Kind::Symbol(Symbol::Nothing));
}

#[test]
fn longest_operators_win() {
    let mut lexer = Lexer::new(">>>= <<= **= !== =>".to_string());
    assert_eq!(lexer.tokenize().unwrap().kind, Kind::Symbol(Symbol::AssignZFShr));
    assert_eq!(lexer.tokenize().unwrap().kind, Kind::Symbol(Symbol::AssignShl));
    assert_eq!(lexer.tokenize().unwrap().kind, Kind::Symbol(Symbol::AssignPow));
    assert_eq!(lexer.tokenize().unwrap().kind, Kind::Symbol(Symbol::SNe));
    assert_eq!(lexer.tokenize().unwrap().kind, Kind::Symbol(Symbol::Arrow));
    assert_eq!(lexer.tokenize(), Err(Error::EOF));
}
