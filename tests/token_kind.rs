use lox::token_kind::TokenKind;

fn check(input: &str, kind: TokenKind) {
    let mut lexer = TokenKind::lexer(input);
    assert_eq!(lexer.next(), Some(Ok(kind)));
    assert_eq!(lexer.slice(), input);
}

#[test]
fn lex_spaces_and_newlines() {
    check("  \n ", TokenKind::Whitespace);
}

#[test]
fn lex_fn_keyword() {
    check("fn", TokenKind::FnKw);
}

#[test]
fn lex_let_keyword() {
    check("let", TokenKind::LetKw);
}

#[test]
fn lex_alphabetic_identifier() {
    check("abcd", TokenKind::Ident);
}

#[test]
fn lex_alphanumeric_identifier() {
    check("ab123cde456", TokenKind::Ident);
}

#[test]
fn lex_mixed_case_identifier() {
    check("ABCdef", TokenKind::Ident);
}

#[test]
fn lex_single_char_identifier() {
    check("x", TokenKind::Ident);
}

#[test]
fn lex_number() {
    check("123456", TokenKind::Number);
}

#[test]
fn lex_plus() {
    check("+", TokenKind::Plus);
}

#[test]
fn lex_minus() {
    check("-", TokenKind::Minus);
}

#[test]
fn lex_star() {
    check("*", TokenKind::Star);
}

#[test]
fn lex_slash() {
    check("/", TokenKind::Slash);
}

#[test]
fn lex_equals() {
    check("=", TokenKind::Equals);
}

#[test]
fn lex_left_parenthesis() {
    check("(", TokenKind::LParen);
}

#[test]
fn lex_right_parenthesis() {
    check(")", TokenKind::RParen);
}

#[test]
fn lex_left_brace() {
    check("{", TokenKind::LBrace);
}

#[test]
fn lex_right_brace() {
    check("}", TokenKind::RBrace);
}

#[test]
fn lex_comment() {
    check("# foo", TokenKind::Comment);
}

#[test]
fn keyword_prefix_is_an_identifier() {
    check("fnord", TokenKind::Ident);
    check("lets", TokenKind::Ident);
}

#[test]
fn comment_stops_at_newline() {
    let mut lexer = TokenKind::lexer("# note\nx");
    assert_eq!(lexer.next(), Some(Ok(TokenKind::Comment)));
    assert_eq!(lexer.slice(), "# note");
    assert_eq!(lexer.next(), Some(Ok(TokenKind::Whitespace)));
    assert_eq!(lexer.next(), Some(Ok(TokenKind::Ident)));
    assert_eq!(lexer.slice(), "x");
    assert_eq!(lexer.next(), None);
}

#[test]
fn unknown_char_is_an_error() {
    let mut lexer = TokenKind::lexer("@1");
    assert_eq!(lexer.next(), Some(Err(())));
    assert_eq!(lexer.slice(), "@");
    assert_eq!(lexer.next(), Some(Ok(TokenKind::Number)));
}

#[test]
fn sequence_of_kinds() {
    let mut lexer = TokenKind::lexer("let x = 12+y");
    let mut kinds = Vec::new();
    while let Some(k) = lexer.next() {
        kinds.push(k.unwrap());
    }
    assert_eq!(
        kinds,
        vec![
            TokenKind::LetKw,
            TokenKind::Whitespace,
            TokenKind::Ident,
            TokenKind::Whitespace,
            TokenKind::Equals,
            TokenKind::Whitespace,
            TokenKind::Number,
            TokenKind::Plus,
            TokenKind::Ident,
        ]
    );
}
