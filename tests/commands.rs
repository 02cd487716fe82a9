use lox::command::{Command, EvaluateCommand, ParseCommand, RunCommand, TokenizeCommand};
use lox::env::Env;
use lox::error::{ExitCode, LoxError};
use lox::token::{Token, TokenType};
use lox::value::Value;

#[test]
fn tokenize_empty_source() {
    let r = TokenizeCommand::new(String::new()).execute();
    assert_eq!(r.stdout, vec!["EOF  null".to_string()]);
    assert!(r.stderr.is_empty());
    assert_eq!(r.exit_code.code(), 0);
}

#[test]
fn tokenize_string_and_numbers() {
    let r = TokenizeCommand::new("\"foo baz\" 42 48.0000".to_string()).execute();
    assert_eq!(
        r.stdout,
        vec![
            "STRING \"foo baz\" foo baz".to_string(),
            "NUMBER 42 42.0".to_string(),
            "NUMBER 48.0000 48.0".to_string(),
            "EOF  null".to_string()
        ]
    );
}

#[test]
fn tokenize_reports_errors_with_status() {
    let r = TokenizeCommand::new("(@)".to_string()).execute();
    assert_eq!(
        r.stdout,
        vec!["LEFT_PAREN ( null".to_string(), "RIGHT_PAREN ) null".to_string(), "EOF  null".to_string()]
    );
    assert_eq!(r.stderr, vec!["[line 1] Error: Unexpected character: @".to_string()]);
    assert_eq!(r.exit_code.code(), 65);
}

#[test]
fn parse_shows_canonical_forms() {
    let r = ParseCommand::new("2 + 3".to_string()).execute();
    assert_eq!(r.stdout, vec!["(+ 2.0 3.0)".to_string()]);
    assert_eq!(r.exit_code.code(), 0);
    let r = ParseCommand::new("print 1; var a = 2; { a; }".to_string()).execute();
    assert_eq!(
        r.stdout,
        vec![
            "Print: 1.0".to_string(),
            "Var: a 2.0".to_string(),
            "Block".to_string(),
            "a".to_string()
        ]
    );
}

#[test]
fn parse_error_has_status_65() {
    let r = ParseCommand::new("(1".to_string()).execute();
    assert!(r.stdout.is_empty());
    assert_eq!(r.stderr, vec!["[line 1] Error: Expected RightParen, but got Eof".to_string()]);
    assert_eq!(r.exit_code.code(), 65);
}

#[test]
fn evaluate_prints_values() {
    let r = EvaluateCommand::new("1 + 2 * 3\n\"a\" + \"b\"\ntrue\nnil".to_string()).execute();
    assert_eq!(r.stdout, vec!["7.0".to_string(), "ab".to_string(), "true".to_string(), "nil".to_string()]);
    assert_eq!(r.exit_code.code(), 0);
}

#[test]
fn evaluate_runtime_error_has_status_70() {
    let r = EvaluateCommand::new("1;\n-\"x\";\n2".to_string()).execute();
    assert_eq!(r.stdout, vec!["1.0".to_string()]);
    assert_eq!(r.stderr, vec!["[line 2] Error: Operand must be a number.".to_string()]);
    assert_eq!(r.exit_code.code(), 70);
}

#[test]
fn run_program() {
    let r = RunCommand::new("var x = 10;\nx = x + 5;\nprint x;".to_string()).execute();
    assert_eq!(r.stdout, vec!["15.0".to_string()]);
    assert_eq!(r.exit_code.code(), 0);
    let r = RunCommand::new("print y;".to_string()).execute();
    assert_eq!(r.stderr, vec!["Error: Undefined variable".to_string()]);
    assert_eq!(r.exit_code.code(), 70);
}

#[test]
fn run_lex_error_has_status_65() {
    let r = RunCommand::new("print \"abc".to_string()).execute();
    assert_eq!(r.stderr, vec!["[line 1] Error: Unterminated string.".to_string()]);
    assert_eq!(r.exit_code.code(), 65);
}

#[test]
fn error_and_exit_code_values() {
    let e = LoxError::new("boom", None);
    assert_eq!(e.render(), "Error: boom");
    let e = LoxError::new("boom", Some(12));
    assert_eq!(e.render(), "[line 12] Error: boom");
    assert_eq!(ExitCode::new(64).code(), 64);
}

#[test]
fn token_new_keeps_fields() {
    let t = Token::new(TokenType::Number, "3".to_string(), Some("3".to_string()), 9);
    assert_eq!(t.token_type, TokenType::Number);
    assert_eq!(t.lexeme, "3");
    assert_eq!(t.literal, Some("3".to_string()));
    assert_eq!(t.line, 9);
    assert_eq!(TokenType::LeftParen.listed(), "LEFT_PAREN");
    assert_eq!(TokenType::LeftParen.kind(), "LeftParen");
}

#[test]
fn child_env_reads_through_to_parent() {
    let mut root = Env::new();
    root.store_binding("a".to_string(), Value::Boolean(true));
    let mut child = root.create_child();
    assert_eq!(child.get_binding_value("a").unwrap().to_text(), "true");
    child.store_binding("a".to_string(), Value::Nil);
    assert_eq!(child.get_binding_value("a").unwrap().to_text(), "nil");
    assert!(child.get_binding_value_without_error("b").is_none());
    assert_eq!(child.get_binding_value("b").unwrap_err(), "binding with name 'b' does not exist");
    assert_eq!(root.get_binding_value("a").unwrap().to_text(), "true");
}

fn tokenize_lines(src: &str) -> String {
    TokenizeCommand::new(src.to_string()).execute().stdout.join("\n")
}

#[test]
fn tokenize_declaration_listing() {
    let expected = "VAR var null\nIDENTIFIER language null\nEQUAL = null\nSTRING \"lox\" lox\nSEMICOLON ; null\nLEFT_PAREN ( null\nLEFT_PAREN ( null\nRIGHT_PAREN ) null\nSEMICOLON ; null\nLEFT_PAREN ( null\nLEFT_BRACE { null\nSTAR * null\nDOT . null\nCOMMA , null\nPLUS + null\nSTAR * null\nRIGHT_BRACE } null\nRIGHT_PAREN ) null\nSEMICOLON ; null\nEOF  null";
    assert_eq!(tokenize_lines("var language = \"lox\";\n(();\n({*.,+*});\n"), expected);
}

#[test]
fn tokenize_double_character_listing() {
    let expected = "EQUAL = null\nLEFT_BRACE { null\nEQUAL_EQUAL == null\nEQUAL = null\nRIGHT_BRACE } null\nSEMICOLON ; null\nBANG ! null\nBANG_EQUAL != null\nEQUAL_EQUAL == null\nSEMICOLON ; null\nLESS < null\nLESS_EQUAL <= null\nGREATER > null\nGREATER_EQUAL >= null\nSEMICOLON ; null\nSLASH / null\nLEFT_PAREN ( null\nRIGHT_PAREN ) null\nEOF  null";
    assert_eq!(tokenize_lines("={===};\n!!===;\n<<=>>=;\n/()"), expected);
}

#[test]
fn tokenize_identifier_listing() {
    let expected = "IDENTIFIER foo null\nIDENTIFIER bar null\nIDENTIFIER _hello null\nIDENTIFIER _123_hello null\nNUMBER 6 6.0\nIDENTIFIER az null\nNUMBER 6 6.0\nIDENTIFIER ar null\nIDENTIFIER f00 null\nIDENTIFIER fo null\nAND and null\nLEFT_PAREN ( null\nRIGHT_PAREN ) null\nLESS < null\nGREATER > null\nLESS < null\nGREATER > null\nEOF  null";
    assert_eq!(tokenize_lines("foo bar _hello _123_hello 6az 6ar f00 fo and()<><>"), expected);
}

#[test]
fn tokenize_number_listing() {
    let expected = "NUMBER 42 42.0\nNUMBER 1234.1234 1234.1234\nNUMBER 48.0000 48.0\nEOF  null";
    assert_eq!(tokenize_lines("42\n1234.1234\n48.0000\n"), expected);
}
