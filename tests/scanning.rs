use lox::scanner::Scanner;
use lox::token::{Token, TokenType};

fn scan(src: &str) -> (Vec<Token>, Scanner) {
    let mut scanner = Scanner::new(src.to_string());
    let tokens = scanner.scan_tokens();
    (tokens, scanner)
}

fn kinds(tokens: &[Token]) -> Vec<TokenType> {
    tokens.iter().map(|t| t.token_type).collect()
}

#[test]
fn empty_source_is_only_end_of_input() {
    let (tokens, scanner) = scan("");
    assert_eq!(kinds(&tokens), vec![TokenType::Eof]);
    assert_eq!(tokens[0].lexeme, "");
    assert_eq!(tokens[0].line, 1);
    assert!(!scanner.has_error());
}

#[test]
fn single_end_of_input_at_the_end() {
    let (tokens, _) = scan("var x = 1;\nprint x; // done\n");
    let eofs = tokens.iter().filter(|t| t.token_type == TokenType::Eof).count();
    assert_eq!(eofs, 1);
    assert_eq!(tokens.last().unwrap().token_type, TokenType::Eof);
    assert_eq!(tokens.last().unwrap().line, 3);
}

#[test]
fn declaration_tokens() {
    let (tokens, _) = scan("var language = \"lox\";");
    assert_eq!(
        kinds(&tokens),
        vec![
            TokenType::Var,
            TokenType::Identifier,
            TokenType::Equal,
            TokenType::String,
            TokenType::Semicolon,
            TokenType::Eof
        ]
    );
    assert_eq!(tokens[1].lexeme, "language");
    assert_eq!(tokens[3].lexeme, "lox");
    assert_eq!(tokens[3].literal, Some("lox".to_string()));
}

#[test]
fn two_char_operators_win() {
    let (tokens, _) = scan("== != <= >= = ! < >");
    assert_eq!(
        kinds(&tokens),
        vec![
            TokenType::EqualEqual,
            TokenType::BangEqual,
            TokenType::LessEqual,
            TokenType::GreaterEqual,
            TokenType::Equal,
            TokenType::Bang,
            TokenType::Less,
            TokenType::Greater,
            TokenType::Eof
        ]
    );
}

#[test]
fn numbers_keep_their_text() {
    let (tokens, _) = scan("42 1234.1234 48.0000 7.");
    assert_eq!(tokens[0].lexeme, "42");
    assert_eq!(tokens[1].lexeme, "1234.1234");
    assert_eq!(tokens[2].lexeme, "48.0000");
    assert_eq!(tokens[3].lexeme, "7");
    assert_eq!(tokens[4].token_type, TokenType::Dot);
}

#[test]
fn keywords_and_identifiers() {
    let (tokens, _) = scan("and class else false for fun if nil or print return super this true var while _x foo1");
    assert_eq!(
        kinds(&tokens),
        vec![
            TokenType::And,
            TokenType::Class,
            TokenType::Else,
            TokenType::False,
            TokenType::For,
            TokenType::Fun,
            TokenType::If,
            TokenType::Nil,
            TokenType::Or,
            TokenType::Print,
            TokenType::Return,
            TokenType::Super,
            TokenType::This,
            TokenType::True,
            TokenType::Var,
            TokenType::While,
            TokenType::Identifier,
            TokenType::Identifier,
            TokenType::Eof
        ]
    );
}

#[test]
fn comment_runs_to_end_of_line() {
    let (tokens, _) = scan("1 // 2 3\n4");
    assert_eq!(kinds(&tokens), vec![TokenType::Number, TokenType::Number, TokenType::Eof]);
    assert_eq!(tokens[1].lexeme, "4");
    assert_eq!(tokens[1].line, 2);
}

#[test]
fn unexpected_characters_are_collected() {
    let (tokens, scanner) = scan("@\n1 $");
    assert!(scanner.has_error());
    let errors = scanner.errors();
    assert_eq!(errors.len(), 2);
    assert_eq!(errors[0].message, "Unexpected character: @");
    assert_eq!(errors[0].line, Some(1));
    assert_eq!(errors[1].message, "Unexpected character: $");
    assert_eq!(errors[1].line, Some(2));
    assert_eq!(kinds(&tokens), vec![TokenType::Number, TokenType::Eof]);
}

#[test]
fn unterminated_string_reports_its_first_line() {
    let (tokens, scanner) = scan("\n\"abc");
    assert!(scanner.has_error());
    let errors = scanner.errors();
    assert_eq!(errors.len(), 1);
    assert_eq!(errors[0].message, "Unterminated string.");
    assert_eq!(errors[0].line, Some(2));
    assert_eq!(kinds(&tokens), vec![TokenType::Eof]);
}

#[test]
fn string_over_lines_ends_on_its_last_line() {
    let (tokens, scanner) = scan("\"a\nb\" x");
    assert!(!scanner.has_error());
    assert_eq!(tokens[0].lexeme, "a\nb");
    assert_eq!(tokens[0].line, 2);
    assert_eq!(tokens[1].line, 2);
}

#[test]
fn error_renders_with_line() {
    let (_, scanner) = scan("#");
    assert_eq!(scanner.errors()[0].render(), "[line 1] Error: Unexpected character: #");
}
