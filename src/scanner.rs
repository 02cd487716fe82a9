//! The lexer: one left-to-right pass over the source chars that yields the
//! token sequence, ended by a single end-of-input token, and the lexical
//! errors met on the way.
use vstd::prelude::*;
use crate::error::LoxError;
use crate::text::{push_char, spells, string_from_chars};
use crate::token::{Token, TokenType};

verus! {

/// What the contracts say of a token: kind, lexeme, literal and line.
pub type TokenView = (TokenType, Seq<char>, Option<Seq<char>>, int);

/// What the contracts say of an error: message and line.
pub type ErrorView = (Seq<char>, Option<int>);

pub open spec fn token_view(t: Token) -> TokenView {
    (t.token_type, t.lexeme@, match t.literal {
        Some(s) => Some(s@),
        None => None,
    }, t.line as int)
}

pub open spec fn error_view(e: LoxError) -> ErrorView {
    (e.message@, match e.line {
        Some(n) => Some(n as int),
        None => None,
    })
}

pub open spec fn token_views(ts: Seq<Token>) -> Seq<TokenView> {
    ts.map_values(|t: Token| token_view(t))
}

pub open spec fn error_views(es: Seq<LoxError>) -> Seq<ErrorView> {
    es.map_values(|e: LoxError| error_view(e))
}

pub open spec fn is_digit(c: char) -> bool {
    '0' <= c <= '9'
}

pub open spec fn is_alpha(c: char) -> bool {
    ('a' <= c <= 'z') || ('A' <= c <= 'Z') || c == '_'
}

pub open spec fn is_alnum(c: char) -> bool {
    is_alpha(c) || is_digit(c)
}

/// The first index from `i` on whose char does not satisfy `p` (or the end).
pub open spec fn skip_while(src: Seq<char>, i: int, p: spec_fn(char) -> bool) -> int
    decreases src.len() - i,
{
    if 0 <= i < src.len() && p(src[i]) {
        skip_while(src, i + 1, p)
    } else {
        i
    }
}

pub open spec fn count_newlines(s: Seq<char>) -> int
    decreases s.len(),
{
    if s.len() == 0 {
        0
    } else {
        count_newlines(s.drop_last()) + if s.last() == '\n' { 1int } else { 0int }
    }
}

/// The tokens of a single char.
pub open spec fn single_token(c: char) -> Option<TokenType> {
    if c == '(' {
        Some(TokenType::LeftParen)
    } else if c == ')' {
        Some(TokenType::RightParen)
    } else if c == '{' {
        Some(TokenType::LeftBrace)
    } else if c == '}' {
        Some(TokenType::RightBrace)
    } else if c == ',' {
        Some(TokenType::Comma)
    } else if c == '.' {
        Some(TokenType::Dot)
    } else if c == '+' {
        Some(TokenType::Plus)
    } else if c == '-' {
        Some(TokenType::Minus)
    } else if c == '*' {
        Some(TokenType::Star)
    } else if c == ';' {
        Some(TokenType::Semicolon)
    } else {
        None
    }
}

/// The token of a char that may be followed by `=`, alone or (`eq`) with
/// the `=`.
pub open spec fn paired_token(c: char, eq: bool) -> Option<TokenType> {
    if c == '!' {
        Some(if eq { TokenType::BangEqual } else { TokenType::Bang })
    } else if c == '=' {
        Some(if eq { TokenType::EqualEqual } else { TokenType::Equal })
    } else if c == '<' {
        Some(if eq { TokenType::LessEqual } else { TokenType::Less })
    } else if c == '>' {
        Some(if eq { TokenType::GreaterEqual } else { TokenType::Greater })
    } else {
        None
    }
}

/// The reserved words; any other identifier text is an `Identifier`.
pub open spec fn keyword(s: Seq<char>) -> TokenType {
    if s == "and"@ {
        TokenType::And
    } else if s == "class"@ {
        TokenType::Class
    } else if s == "else"@ {
        TokenType::Else
    } else if s == "false"@ {
        TokenType::False
    } else if s == "for"@ {
        TokenType::For
    } else if s == "fun"@ {
        TokenType::Fun
    } else if s == "if"@ {
        TokenType::If
    } else if s == "nil"@ {
        TokenType::Nil
    } else if s == "or"@ {
        TokenType::Or
    } else if s == "print"@ {
        TokenType::Print
    } else if s == "return"@ {
        TokenType::Return
    } else if s == "super"@ {
        TokenType::Super
    } else if s == "this"@ {
        TokenType::This
    } else if s == "true"@ {
        TokenType::True
    } else if s == "var"@ {
        TokenType::Var
    } else if s == "while"@ {
        TokenType::While
    } else {
        TokenType::Identifier
    }
}

/// End of a number literal that starts at `pos`: digits, then a `.` and more
/// digits only where a digit follows the `.`.
pub open spec fn number_end(src: Seq<char>, pos: int) -> int {
    let e = skip_while(src, pos, |c: char| is_digit(c));
    if e + 1 < src.len() && src[e] == '.' && is_digit(src[e + 1]) {
        skip_while(src, e + 1, |c: char| is_digit(c))
    } else {
        e
    }
}

/// One step of the lexer at `pos < src.len()` on line `line`: where it goes
/// on, on which line, and the token or error it yields, if any.
pub open spec fn scan_step(src: Seq<char>, pos: int, line: int) -> (int, int, Option<TokenView>, Option<ErrorView>) {
    let c = src[pos];
    if single_token(c) is Some {
        (pos + 1, line, Some((single_token(c)->0, seq![c], None, line)), None)
    } else if paired_token(c, false) is Some {
        if pos + 1 < src.len() && src[pos + 1] == '=' {
            (pos + 2, line, Some((paired_token(c, true)->0, seq![c, '='], None, line)), None)
        } else {
            (pos + 1, line, Some((paired_token(c, false)->0, seq![c], None, line)), None)
        }
    } else if c == '/' {
        if pos + 1 < src.len() && src[pos + 1] == '/' {
            (skip_while(src, pos + 2, |d: char| d != '\n'), line, None, None)
        } else {
            (pos + 1, line, Some((TokenType::Slash, seq![c], None, line)), None)
        }
    } else if c == '"' {
        let close = skip_while(src, pos + 1, |d: char| d != '"');
        let body = src.subrange(pos + 1, close);
        let end_line = line + count_newlines(body);
        if close == src.len() {
            (close, end_line, None, Some(("Unterminated string."@, Some(line))))
        } else {
            (close + 1, end_line, Some((TokenType::String, body, Some(body), end_line)), None)
        }
    } else if c == ' ' || c == '\r' || c == '\t' {
        (pos + 1, line, None, None)
    } else if c == '\n' {
        (pos + 1, line + 1, None, None)
    } else if is_digit(c) {
        let text = src.subrange(pos, number_end(src, pos));
        (number_end(src, pos), line, Some((TokenType::Number, text, Some(text), line)), None)
    } else if is_alpha(c) {
        let e = skip_while(src, pos, |d: char| is_alnum(d));
        (e, line, Some((keyword(src.subrange(pos, e)), src.subrange(pos, e), None, line)), None)
    } else {
        (pos + 1, line, None, Some(("Unexpected character: "@.push(c), Some(line))))
    }
}

pub open spec fn opt_seq<T>(o: Option<T>) -> Seq<T> {
    match o {
        Some(x) => seq![x],
        None => Seq::empty(),
    }
}

/// The tokens, errors and final line of a scan from `pos` on line `line`.
pub open spec fn scan_from(src: Seq<char>, pos: int, line: int) -> (Seq<TokenView>, Seq<ErrorView>, int)
    decreases src.len() - pos,
{
    if pos < 0 || pos >= src.len() {
        (Seq::empty(), Seq::empty(), line)
    } else {
        let (next, next_line, t, e) = scan_step(src, pos, line);
        if next <= pos || next > src.len() {
            (Seq::empty(), Seq::empty(), line)
        } else {
            let rest = scan_from(src, next, next_line);
            (opt_seq(t) + rest.0, opt_seq(e) + rest.1, rest.2)
        }
    }
}

/// The whole token sequence of `src`: what the scan yields, then end-of-input
/// on the last line.
pub open spec fn lex(src: Seq<char>) -> Seq<TokenView> {
    let r = scan_from(src, 0, 1);
    r.0.push((TokenType::Eof, Seq::empty(), None, r.2))
}

/// The lexical errors of `src`, in source order.
pub open spec fn lex_errors(src: Seq<char>) -> Seq<ErrorView> {
    scan_from(src, 0, 1).1
}

proof fn lemma_skip_while_bounds(src: Seq<char>, i: int, p: spec_fn(char) -> bool)
    requires
        0 <= i <= src.len(),
    ensures
        i <= skip_while(src, i, p) <= src.len(),
    decreases src.len() - i,
{
    if i < src.len() && p(src[i]) {
        lemma_skip_while_bounds(src, i + 1, p);
    }
}

proof fn lemma_scan_step_moves(src: Seq<char>, pos: int, line: int)
    requires
        0 <= pos < src.len(),
    ensures
        pos < scan_step(src, pos, line).0 <= src.len(),
{
    let c = src[pos];
    if pos + 2 <= src.len() {
        lemma_skip_while_bounds(src, pos + 2, |d: char| d != '\n');
    }
    lemma_skip_while_bounds(src, pos + 1, |d: char| d != '"');
    lemma_skip_while_bounds(src, pos, |d: char| is_digit(d));
    lemma_skip_while_bounds(src, pos, |d: char| is_alnum(d));
    let e = skip_while(src, pos, |d: char| is_digit(d));
    if e + 1 < src.len() {
        lemma_skip_while_bounds(src, e + 1, |d: char| is_digit(d));
    }
    if is_digit(c) {
        assert(skip_while(src, pos, |d: char| is_digit(d)) == skip_while(src, pos + 1, |d: char| is_digit(d)));
        lemma_skip_while_bounds(src, pos + 1, |d: char| is_digit(d));
    }
    if is_alpha(c) {
        assert(skip_while(src, pos, |d: char| is_alnum(d)) == skip_while(src, pos + 1, |d: char| is_alnum(d)));
        lemma_skip_while_bounds(src, pos + 1, |d: char| is_alnum(d));
    }
}

/// The lexer's state over one source text.
pub struct Scanner {
    source: Vec<char>,
    errors: Vec<LoxError>,
}

fn is_digit_char(c: char) -> (r: bool)
    ensures
        r == is_digit(c),
{
    '0' <= c && c <= '9'
}

fn is_alpha_char(c: char) -> (r: bool)
    ensures
        r == is_alpha(c),
{
    ('a' <= c && c <= 'z') || ('A' <= c && c <= 'Z') || c == '_'
}

fn is_alnum_char(c: char) -> (r: bool)
    ensures
        r == is_alnum(c),
{
    is_alpha_char(c) || is_digit_char(c)
}

/// The char at `i`, or `'\0'` past the end.
fn peek(src: &Vec<char>, i: usize) -> (r: char)
    ensures
        i < src@.len() ==> r == src@[i as int],
        i >= src@.len() ==> r == '\0',
{
    if i < src.len() {
        src[i]
    } else {
        '\0'
    }
}

/// Whether the char at `i` exists and is `expected`.
fn match_next(src: &Vec<char>, i: usize, expected: char) -> (r: bool)
    ensures
        r == (i < src@.len() && src@[i as int] == expected),
{
    i < src.len() && src[i] == expected
}

fn skip_digits(src: &Vec<char>, i: usize) -> (r: usize)
    requires
        i <= src@.len(),
    ensures
        r == skip_while(src@, i as int, |c: char| is_digit(c)),
{
    let mut j = i;
    while j < src.len() && is_digit_char(src[j])
        invariant
            i <= j <= src@.len(),
            skip_while(src@, i as int, |c: char| is_digit(c)) == skip_while(src@, j as int, |c: char| is_digit(c)),
        decreases src@.len() - j,
    {
        j += 1;
    }
    j
}

fn skip_alnum(src: &Vec<char>, i: usize) -> (r: usize)
    requires
        i <= src@.len(),
    ensures
        r == skip_while(src@, i as int, |c: char| is_alnum(c)),
{
    let mut j = i;
    while j < src.len() && is_alnum_char(src[j])
        invariant
            i <= j <= src@.len(),
            skip_while(src@, i as int, |c: char| is_alnum(c)) == skip_while(src@, j as int, |c: char| is_alnum(c)),
        decreases src@.len() - j,
    {
        j += 1;
    }
    j
}

fn skip_comment(src: &Vec<char>, i: usize) -> (r: usize)
    requires
        i <= src@.len(),
    ensures
        r == skip_while(src@, i as int, |d: char| d != '\n'),
{
    let mut j = i;
    while j < src.len() && src[j] != '\n'
        invariant
            i <= j <= src@.len(),
            skip_while(src@, i as int, |d: char| d != '\n') == skip_while(src@, j as int, |d: char| d != '\n'),
        decreases src@.len() - j,
    {
        j += 1;
    }
    j
}

/// Appends a token without literal over `src[start..end]`.
fn add_token(src: &Vec<char>, start: usize, end: usize, kind: TokenType, line: usize, tokens: &mut Vec<Token>)
    requires
        start <= end <= src@.len(),
    ensures
        token_views(final(tokens)@) == token_views(old(tokens)@).push(
            (kind, src@.subrange(start as int, end as int), None, line as int),
        ),
{
    let lexeme = string_from_chars(src, start, end);
    tokens.push(Token::new(kind, lexeme, None, line));
    assert(token_views(final(tokens)@) =~= token_views(old(tokens)@).push(
        (kind, src@.subrange(start as int, end as int), None, line as int),
    ));
}

/// Appends a token whose literal is its own lexeme, `src[start..end]`.
fn add_literal_token(src: &Vec<char>, start: usize, end: usize, kind: TokenType, line: usize, tokens: &mut Vec<Token>)
    requires
        start <= end <= src@.len(),
    ensures
        token_views(final(tokens)@) == token_views(old(tokens)@).push(
            (kind, src@.subrange(start as int, end as int), Some(src@.subrange(start as int, end as int)), line as int),
        ),
{
    let lexeme = string_from_chars(src, start, end);
    let literal = string_from_chars(src, start, end);
    tokens.push(Token::new(kind, lexeme, Some(literal), line));
    assert(token_views(final(tokens)@) =~= token_views(old(tokens)@).push(
        (kind, src@.subrange(start as int, end as int), Some(src@.subrange(start as int, end as int)), line as int),
    ));
}

fn push_error(errors: &mut Vec<LoxError>, e: LoxError)
    ensures
        error_views(final(errors)@) == error_views(old(errors)@).push(error_view(e)),
{
    errors.push(e);
    assert(error_views(final(errors)@) =~= error_views(old(errors)@).push(error_view(e)));
}

/// A string literal whose opening quote is at `pos`.
fn string(src: &Vec<char>, pos: usize, line: usize, tokens: &mut Vec<Token>, errors: &mut Vec<LoxError>) -> (r: (usize, usize))
    requires
        pos < src@.len(),
        src@[pos as int] == '"',
        line <= pos + 1,
    ensures
        ({
            let (next, next_line, t, e) = scan_step(src@, pos as int, line as int);
            &&& r.0 == next
            &&& r.1 == next_line
            &&& r.1 <= r.0 + 1
            &&& token_views(final(tokens)@) == token_views(old(tokens)@) + opt_seq(t)
            &&& error_views(final(errors)@) == error_views(old(errors)@) + opt_seq(e)
        }),
{
    let n = src.len(); // a Vec length: positions past `pos` stay in range
    let mut j = pos + 1;
    let mut cur = line;
    while j < src.len() && src[j] != '"'
        invariant
            pos + 1 <= j <= src@.len(),
            cur <= j,
            cur == line + count_newlines(src@.subrange(pos + 1, j as int)),
            skip_while(src@, pos + 1, |d: char| d != '"') == skip_while(src@, j as int, |d: char| d != '"'),
        decreases src@.len() - j,
    {
        assert(src@.subrange(pos + 1, j + 1).drop_last() =~= src@.subrange(pos + 1, j as int));
        if src[j] == '\n' {
            cur += 1;
        }
        j += 1;
    }
    if j == src.len() {
        push_error(errors, LoxError::new("Unterminated string.", Some(line)));
        assert(token_views(final(tokens)@) =~= token_views(old(tokens)@) + opt_seq(None::<TokenView>));
        (j, cur)
    } else {
        add_literal_token(src, pos + 1, j, TokenType::String, cur, tokens);
        assert(error_views(final(errors)@) =~= error_views(old(errors)@) + opt_seq(None::<ErrorView>));
        (j + 1, cur)
    }
}

fn keyword_type(src: &Vec<char>, start: usize, end: usize) -> (r: TokenType)
    requires
        start <= end <= src@.len(),
    ensures
        r == keyword(src@.subrange(start as int, end as int)),
{
    if spells(src, start, end, "and") {
        TokenType::And
    } else if spells(src, start, end, "class") {
        TokenType::Class
    } else if spells(src, start, end, "else") {
        TokenType::Else
    } else if spells(src, start, end, "false") {
        TokenType::False
    } else if spells(src, start, end, "for") {
        TokenType::For
    } else if spells(src, start, end, "fun") {
        TokenType::Fun
    } else if spells(src, start, end, "if") {
        TokenType::If
    } else if spells(src, start, end, "nil") {
        TokenType::Nil
    } else if spells(src, start, end, "or") {
        TokenType::Or
    } else if spells(src, start, end, "print") {
        TokenType::Print
    } else if spells(src, start, end, "return") {
        TokenType::Return
    } else if spells(src, start, end, "super") {
        TokenType::Super
    } else if spells(src, start, end, "this") {
        TokenType::This
    } else if spells(src, start, end, "true") {
        TokenType::True
    } else if spells(src, start, end, "var") {
        TokenType::Var
    } else if spells(src, start, end, "while") {
        TokenType::While
    } else {
        TokenType::Identifier
    }
}

/// A number literal that starts at `pos`; returns where it ends.
fn number(src: &Vec<char>, pos: usize, line: usize, tokens: &mut Vec<Token>) -> (r: usize)
    requires
        pos < src@.len(),
    ensures
        r == number_end(src@, pos as int),
        token_views(final(tokens)@) == token_views(old(tokens)@).push(
            (TokenType::Number, src@.subrange(pos as int, r as int), Some(src@.subrange(pos as int, r as int)), line as int),
        ),
{
    let n = src.len(); // a Vec length: positions past `pos` stay in range
    proof {
        lemma_skip_while_bounds(src@, pos as int, |c: char| is_digit(c));
    }
    let mut end = skip_digits(src, pos);
    if peek(src, end) == '.' && end + 1 < src.len() && is_digit_char(src[end + 1]) {
        end = skip_digits(src, end + 1);
    }
    proof {
        lemma_skip_while_bounds(src@, pos as int, |c: char| is_digit(c));
        let e = skip_while(src@, pos as int, |c: char| is_digit(c));
        if e + 1 < src@.len() {
            lemma_skip_while_bounds(src@, e + 1, |c: char| is_digit(c));
        }
    }
    add_literal_token(src, pos, end, TokenType::Number, line, tokens);
    end
}

/// An identifier or reserved word that starts at `pos`; returns where it ends.
fn identifier(src: &Vec<char>, pos: usize, line: usize, tokens: &mut Vec<Token>) -> (r: usize)
    requires
        pos < src@.len(),
    ensures
        r == skip_while(src@, pos as int, |d: char| is_alnum(d)),
        token_views(final(tokens)@) == token_views(old(tokens)@).push(
            (keyword(src@.subrange(pos as int, r as int)), src@.subrange(pos as int, r as int), None, line as int),
        ),
{
    let end = skip_alnum(src, pos);
    proof {
        lemma_skip_while_bounds(src@, pos as int, |c: char| is_alnum(c));
    }
    let kind = keyword_type(src, pos, end);
    add_token(src, pos, end, kind, line, tokens);
    end
}

/// One step of the lexer at `pos`, as `scan_step` describes it.
fn scan_token(src: &Vec<char>, pos: usize, line: usize, tokens: &mut Vec<Token>, errors: &mut Vec<LoxError>) -> (r: (usize, usize))
    requires
        pos < src@.len() < usize::MAX,
        line <= pos + 1,
    ensures
        ({
            let (next, next_line, t, e) = scan_step(src@, pos as int, line as int);
            &&& r.0 == next
            &&& r.1 == next_line
            &&& r.1 <= r.0 + 1
            &&& token_views(final(tokens)@) == token_views(old(tokens)@) + opt_seq(t)
            &&& error_views(final(errors)@) == error_views(old(errors)@) + opt_seq(e)
        }),
{
    let ghost step = scan_step(src@, pos as int, line as int);
    let n = src.len(); // a Vec length: positions past `pos` stay in range
    let c = src[pos];
    let single = if c == '(' {
        Some(TokenType::LeftParen)
    } else if c == ')' {
        Some(TokenType::RightParen)
    } else if c == '{' {
        Some(TokenType::LeftBrace)
    } else if c == '}' {
        Some(TokenType::RightBrace)
    } else if c == ',' {
        Some(TokenType::Comma)
    } else if c == '.' {
        Some(TokenType::Dot)
    } else if c == '+' {
        Some(TokenType::Plus)
    } else if c == '-' {
        Some(TokenType::Minus)
    } else if c == '*' {
        Some(TokenType::Star)
    } else if c == ';' {
        Some(TokenType::Semicolon)
    } else {
        None
    };
    let paired = if c == '!' {
        Some((TokenType::Bang, TokenType::BangEqual))
    } else if c == '=' {
        Some((TokenType::Equal, TokenType::EqualEqual))
    } else if c == '<' {
        Some((TokenType::Less, TokenType::LessEqual))
    } else if c == '>' {
        Some((TokenType::Greater, TokenType::GreaterEqual))
    } else {
        None
    };
    proof {
        lemma_scan_step_moves(src@, pos as int, line as int);
    }
    if let Some(kind) = single {
        add_token(src, pos, pos + 1, kind, line, tokens);
        assert(src@.subrange(pos as int, pos + 1) =~= seq![c]);
        assert(error_views(final(errors)@) =~= error_views(old(errors)@) + opt_seq(step.3));
        assert(token_views(final(tokens)@) =~= token_views(old(tokens)@) + opt_seq(step.2));
        return (pos + 1, line);
    }
    if let Some((alone, with_eq)) = paired {
        assert(error_views(final(errors)@) =~= error_views(old(errors)@) + opt_seq(step.3));
        if match_next(src, pos + 1, '=') {
            add_token(src, pos, pos + 2, with_eq, line, tokens);
            assert(src@.subrange(pos as int, pos + 2) =~= seq![c, '=']);
            assert(token_views(final(tokens)@) =~= token_views(old(tokens)@) + opt_seq(step.2));
            return (pos + 2, line);
        } else {
            add_token(src, pos, pos + 1, alone, line, tokens);
            assert(src@.subrange(pos as int, pos + 1) =~= seq![c]);
            assert(token_views(final(tokens)@) =~= token_views(old(tokens)@) + opt_seq(step.2));
            return (pos + 1, line);
        }
    }
    if c == '/' {
        assert(error_views(final(errors)@) =~= error_views(old(errors)@) + opt_seq(step.3));
        if match_next(src, pos + 1, '/') {
            let end = skip_comment(src, pos + 2);
            assert(token_views(final(tokens)@) =~= token_views(old(tokens)@) + opt_seq(step.2));
            return (end, line);
        } else {
            add_token(src, pos, pos + 1, TokenType::Slash, line, tokens);
            assert(src@.subrange(pos as int, pos + 1) =~= seq![c]);
            assert(token_views(final(tokens)@) =~= token_views(old(tokens)@) + opt_seq(step.2));
            return (pos + 1, line);
        }
    }
    if c == '"' {
        return string(src, pos, line, tokens, errors);
    }
    if c == ' ' || c == '\r' || c == '\t' || c == '\n' {
        assert(error_views(final(errors)@) =~= error_views(old(errors)@) + opt_seq(step.3));
        assert(token_views(final(tokens)@) =~= token_views(old(tokens)@) + opt_seq(step.2));
        if c == '\n' {
            return (pos + 1, line + 1);
        }
        return (pos + 1, line);
    }
    if is_digit_char(c) {
        let end = number(src, pos, line, tokens);
        assert(error_views(final(errors)@) =~= error_views(old(errors)@) + opt_seq(step.3));
        assert(token_views(final(tokens)@) =~= token_views(old(tokens)@) + opt_seq(step.2));
        return (end, line);
    }
    if is_alpha_char(c) {
        let end = identifier(src, pos, line, tokens);
        assert(error_views(final(errors)@) =~= error_views(old(errors)@) + opt_seq(step.3));
        assert(token_views(final(tokens)@) =~= token_views(old(tokens)@) + opt_seq(step.2));
        return (end, line);
    }
    let mut message = String::from_str("Unexpected character: ");
    push_char(&mut message, c);
    push_error(errors, LoxError::with_message(message, Some(line)));
    assert(error_views(final(errors)@) =~= error_views(old(errors)@) + opt_seq(step.3));
    assert(token_views(final(tokens)@) =~= token_views(old(tokens)@) + opt_seq(step.2));
    (pos + 1, line)
}

proof fn lemma_scan_from_has_no_eof(src: Seq<char>, pos: int, line: int)
    ensures
        forall|i: int| 0 <= i < scan_from(src, pos, line).0.len() ==> #[trigger] scan_from(src, pos, line).0[i].0 != TokenType::Eof,
    decreases src.len() - pos,
{
    if 0 <= pos < src.len() {
        let (next, next_line, t, e) = scan_step(src, pos, line);
        if pos < next <= src.len() {
            lemma_scan_from_has_no_eof(src, next, next_line);
            let c = src[pos];
            if c == '"' {
            } else if is_alpha(c) {
                let e = skip_while(src, pos, |d: char| is_alnum(d));
                let k = keyword(src.subrange(pos, e));
            }
        }
    }
}

/// Every token sequence the lexer yields ends with end-of-input, and no other
/// token of it is end-of-input.
pub proof fn lemma_single_trailing_eof(src: Seq<char>)
    ensures
        lex(src).len() >= 1,
        lex(src).last().0 == TokenType::Eof,
        forall|i: int| 0 <= i < lex(src).len() - 1 ==> #[trigger] lex(src)[i].0 != TokenType::Eof,
{
    lemma_scan_from_has_no_eof(src, 0, 1);
    let r = scan_from(src, 0, 1);
    assert forall|i: int| 0 <= i < lex(src).len() - 1 implies #[trigger] lex(src)[i].0 != TokenType::Eof by {
        assert(lex(src)[i] == r.0[i]);
    }
}

impl View for Scanner {
    type V = Seq<char>;

    closed spec fn view(&self) -> Seq<char> {
        self.source@
    }
}

impl Scanner {
    /// The errors recorded so far, in source order.
    pub closed spec fn recorded(&self) -> Seq<LoxError> {
        self.errors@
    }

    pub fn new(source: String) -> (r: Self)
        ensures
            r@ == source@,
            r.recorded().len() == 0,
    {
        let chars = crate::text::chars_of(source.as_str());
        Scanner { source: chars, errors: Vec::new() }
    }

    /// Scans the whole source. The tokens are `lex` of it; the errors met
    /// replace those recorded before, and are `lex_errors` of it.
    pub fn scan_tokens(&mut self) -> (r: Vec<Token>)
        requires
            old(self)@.len() < usize::MAX,
        ensures
            final(self)@ == old(self)@,
            token_views(r@) == lex(old(self)@),
            error_views(final(self).recorded()) == lex_errors(old(self)@),
            r@.len() >= 1,
            r@.last().token_type == TokenType::Eof,
            forall|i: int| 0 <= i < r@.len() - 1 ==> #[trigger] r@[i].token_type != TokenType::Eof,
    {
        let mut tokens: Vec<Token> = Vec::new();
        let mut errors: Vec<LoxError> = Vec::new();
        let mut pos: usize = 0;
        let mut line: usize = 1;
        let ghost src = self.source@;
        while pos < self.source.len()
            invariant
                src == self.source@,
                src.len() < usize::MAX,
                pos <= src.len(),
                line <= pos + 1,
                scan_from(src, 0, 1).0 == token_views(tokens@) + scan_from(src, pos as int, line as int).0,
                scan_from(src, 0, 1).1 == error_views(errors@) + scan_from(src, pos as int, line as int).1,
                scan_from(src, 0, 1).2 == scan_from(src, pos as int, line as int).2,
            decreases src.len() - pos,
        {
            let ghost old_tokens = token_views(tokens@);
            let ghost old_errors = error_views(errors@);
            let ghost step = scan_step(src, pos as int, line as int);
            let ghost rest = scan_from(src, step.0, step.1);
            let (next, next_line) = scan_token(&self.source, pos, line, &mut tokens, &mut errors);
            proof {
                lemma_scan_step_moves(src, pos as int, line as int);
                assert(scan_from(src, pos as int, line as int).0 == opt_seq(step.2) + rest.0);
                assert(old_tokens + (opt_seq(step.2) + rest.0) =~= (old_tokens + opt_seq(step.2)) + rest.0);
                assert(old_errors + (opt_seq(step.3) + rest.1) =~= (old_errors + opt_seq(step.3)) + rest.1);
            }
            pos = next;
            line = next_line;
        }
        proof {
            assert(token_views(tokens@) + Seq::empty() =~= token_views(tokens@));
            assert(error_views(errors@) + Seq::empty() =~= error_views(errors@));
        }
        let ghost before = tokens@;
        tokens.push(Token::new(TokenType::Eof, String::new(), None, line));
        assert(token_views(tokens@) =~= token_views(before).push((TokenType::Eof, Seq::empty(), None, line as int)));
        self.errors = errors;
        proof {
            lemma_single_trailing_eof(src);
            assert(token_views(tokens@) == lex(src));
            assert forall|i: int| 0 <= i < tokens@.len() - 1 implies #[trigger] tokens@[i].token_type != TokenType::Eof by {
                assert(token_views(tokens@)[i] == token_view(tokens@[i]));
                assert(lex(src)[i].0 != TokenType::Eof);
            }
            assert(token_views(tokens@)[tokens@.len() - 1] == token_view(tokens@[tokens@.len() - 1]));
        }
        tokens
    }

    /// The errors recorded by the last scan.
    pub fn errors(&self) -> (r: &Vec<LoxError>)
        ensures
            r@ == self.recorded(),
    {
        &self.errors
    }

    /// Whether the last scan met any lexical error.
    pub fn has_error(&self) -> (r: bool)
        ensures
            r == (self.recorded().len() > 0),
    {
        self.errors.len() > 0
    }
}

} // verus!
