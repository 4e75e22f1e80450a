use eslex::token::{Keyword, Kind, Location, Token, TokenLocation, to_keyword};

#[test]
fn keyword_table_hits() {
    assert_eq!(to_keyword("var"), Some(Keyword::Var));
    assert_eq!(to_keyword("await"), Some(Keyword::Await));
    assert_eq!(to_keyword("instanceof"), Some(Keyword::Instanceof));
    assert_eq!(to_keyword("yield"), Some(Keyword::Yield));
}

#[test]
fn keyword_table_misses() {
    assert_eq!(to_keyword(""), None);
    assert_eq!(to_keyword("varx"), None);
    assert_eq!(to_keyword("Var"), None);
    assert_eq!(to_keyword("awai"), None);
}

#[test]
fn token_builders() {
    let span = TokenLocation {
        start: Location { line: 1, col: 0 },
        end: Location { line: 1, col: 3 },
    };
    let kw = Token::new_keyword(span, Kind::Keyword(Keyword::Var));
    assert_eq!(kw.location, span);
    assert_eq!(kw.kind, Kind::Keyword(Keyword::Var));

    let ident = Token::new_identifier(span, "foo".to_string());
    assert_eq!(ident.location, span);
    assert_eq!(ident.kind, Kind::Identifier("foo".to_string()));
}
