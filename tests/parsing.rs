use lox::ast::Stmt;
use lox::error::LoxError;
use lox::parser::Parser;
use lox::scanner::Scanner;

fn parse(src: &str, strict: bool) -> Result<Vec<Stmt>, LoxError> {
    let mut scanner = Scanner::new(src.to_string());
    let tokens = scanner.scan_tokens();
    Parser::new(tokens, strict).parse()
}

#[test]
fn statements_of_each_kind() {
    let statements = parse("print 1; var a = 2; var b; { a; } a = 3;", true).unwrap();
    assert_eq!(statements.len(), 5);
    assert!(matches!(statements[0], Stmt::Print(_)));
    match &statements[1] {
        Stmt::Var(name, e) => {
            assert_eq!(name, "a");
            assert_eq!(e.to_text(), "2.0");
        }
        other => panic!("unexpected {:?}", other),
    }
    match &statements[2] {
        Stmt::Var(name, e) => {
            assert_eq!(name, "b");
            assert_eq!(e.to_text(), "nil");
        }
        other => panic!("unexpected {:?}", other),
    }
    match &statements[3] {
        Stmt::Block(items) => assert_eq!(items.len(), 1),
        other => panic!("unexpected {:?}", other),
    }
    match &statements[4] {
        Stmt::Expression(e) => assert_eq!(e.to_text(), "a 3.0"),
        other => panic!("unexpected {:?}", other),
    }
}

#[test]
fn strict_mode_needs_semicolons() {
    let e = parse("1 + 2", true).unwrap_err();
    assert_eq!(e.message, "Expected Semicolon, but got Eof");
    assert_eq!(parse("1 + 2", false).unwrap().len(), 1);
}

#[test]
fn invalid_assignment_target() {
    let e = parse("1 = 2;", true).unwrap_err();
    assert_eq!(e.message, "Invalid assignment target");
    assert_eq!(e.line, Some(1));
}

#[test]
fn assignment_is_right_associative() {
    let statements = parse("a = b = 1", false).unwrap();
    match &statements[0] {
        Stmt::Expression(e) => assert_eq!(e.to_text(), "a b 1.0"),
        other => panic!("unexpected {:?}", other),
    }
}

#[test]
fn missing_closing_paren() {
    let e = parse("(1 + 2", false).unwrap_err();
    assert_eq!(e.message, "Expected RightParen, but got Eof");
}

#[test]
fn unclosed_block_is_an_error() {
    let e = parse("{ print 1;", true).unwrap_err();
    assert_eq!(e.message, "Expected RightBrace, but got Eof");
}

#[test]
fn end_of_input_inside_expression() {
    let e = parse("1 +", false).unwrap_err();
    assert_eq!(e.message, "Unexpected end of input");
}

#[test]
fn unexpected_token() {
    let e = parse("\n)", false).unwrap_err();
    assert_eq!(e.message, "Unexpected token: ')'");
    assert_eq!(e.line, Some(2));
}

#[test]
fn var_needs_a_name() {
    let e = parse("var 1;", true).unwrap_err();
    assert_eq!(e.message, "Expected variable name after 'var'");
}

#[test]
fn parenthesized_form_parses_back_to_the_same_tree() {
    let statements = parse("(1 + (2 * 3))", false).unwrap();
    let first = match &statements[0] {
        Stmt::Expression(e) => e.to_text(),
        other => panic!("unexpected {:?}", other),
    };
    assert_eq!(first, "(group (+ 1.0 (group (* 2.0 3.0))))");
    let again = parse("(1 + (2 * 3));", true).unwrap();
    match &again[0] {
        Stmt::Expression(e) => assert_eq!(e.to_text(), first),
        other => panic!("unexpected {:?}", other),
    }
}
