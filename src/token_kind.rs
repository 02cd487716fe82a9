//! The token kinds of the small procedure language and a lexer that yields
//! them one at a time, each with the text it covers. At each point the
//! longest match wins; on equal length a keyword wins over an identifier.
use vstd::prelude::*;
use crate::scanner::{is_digit, skip_while};
use crate::text::{chars_of, spells, string_from_chars};

verus! {

#[derive(Clone, Copy, Debug, PartialEq, Eq, Structural)]
pub enum TokenKind {
    Whitespace,
    FnKw,
    LetKw,
    Ident,
    Number,
    Plus,
    Minus,
    Star,
    Slash,
    Equals,
    LParen,
    RParen,
    LBrace,
    RBrace,
    Comment,
}

pub open spec fn is_letter(c: char) -> bool {
    ('a' <= c <= 'z') || ('A' <= c <= 'Z')
}

pub open spec fn is_space(c: char) -> bool {
    c == ' ' || c == '\n'
}

pub open spec fn single_kind(c: char) -> Option<TokenKind> {
    if c == '+' {
        Some(TokenKind::Plus)
    } else if c == '-' {
        Some(TokenKind::Minus)
    } else if c == '*' {
        Some(TokenKind::Star)
    } else if c == '/' {
        Some(TokenKind::Slash)
    } else if c == '=' {
        Some(TokenKind::Equals)
    } else if c == '(' {
        Some(TokenKind::LParen)
    } else if c == ')' {
        Some(TokenKind::RParen)
    } else if c == '{' {
        Some(TokenKind::LBrace)
    } else if c == '}' {
        Some(TokenKind::RBrace)
    } else {
        None
    }
}

/// The token that starts at `pos` and where it ends: a run of spaces and
/// newlines; a word (`fn` and `let` are keywords); a run of digits; a
/// one-char operator or bracket; `#` up to the end of the line. Any other
/// char is an error covering that char. None at the end of the input.
pub open spec fn kind_at(s: Seq<char>, pos: int) -> Option<(Result<TokenKind, ()>, int)> {
    if !(0 <= pos < s.len()) {
        None
    } else {
        let c = s[pos];
        if is_space(c) {
            Some((Ok(TokenKind::Whitespace), skip_while(s, pos, |d: char| is_space(d))))
        } else if is_letter(c) {
            let e = skip_while(s, pos, |d: char| is_letter(d) || is_digit(d));
            let word = s.subrange(pos, e);
            Some((Ok(if word == "fn"@ {
                TokenKind::FnKw
            } else if word == "let"@ {
                TokenKind::LetKw
            } else {
                TokenKind::Ident
            }), e))
        } else if is_digit(c) {
            Some((Ok(TokenKind::Number), skip_while(s, pos, |d: char| is_digit(d))))
        } else if single_kind(c) is Some {
            Some((Ok(single_kind(c)->0), pos + 1))
        } else if c == '#' {
            Some((Ok(TokenKind::Comment), skip_while(s, pos, |d: char| d != '\n')))
        } else {
            Some((Err(()), pos + 1))
        }
    }
}

/// A lexer over one input: the last token found spans `start..end`.
pub struct KindLexer {
    chars: Vec<char>,
    start: usize,
    end: usize,
}

impl TokenKind {
    /// A lexer at the start of `input`.
    pub fn lexer(input: &str) -> (r: KindLexer)
        ensures
            r.input() == input@,
            r.span() == (0int, 0int),
    {
        KindLexer { chars: chars_of(input), start: 0, end: 0 }
    }
}

fn continues_run(c: char, kind: u8) -> (r: bool)
    ensures
        kind == 0 ==> r == is_space(c),
        kind == 1 ==> r == (is_letter(c) || is_digit(c)),
        kind == 2 ==> r == is_digit(c),
        kind >= 3 ==> r == (c != '\n'),
{
    if kind == 0 {
        c == ' ' || c == '\n'
    } else if kind == 1 {
        ('a' <= c && c <= 'z') || ('A' <= c && c <= 'Z') || ('0' <= c && c <= '9')
    } else if kind == 2 {
        '0' <= c && c <= '9'
    } else {
        c != '\n'
    }
}

fn skip_run(s: &Vec<char>, i: usize, kind: u8) -> (r: usize)
    requires
        i <= s@.len(),
    ensures
        kind == 0 ==> r == skip_while(s@, i as int, |d: char| is_space(d)),
        kind == 1 ==> r == skip_while(s@, i as int, |d: char| is_letter(d) || is_digit(d)),
        kind == 2 ==> r == skip_while(s@, i as int, |d: char| is_digit(d)),
        kind >= 3 ==> r == skip_while(s@, i as int, |d: char| d != '\n'),
        i <= r <= s@.len(),
{
    let mut j = i;
    while j < s.len() && continues_run(s[j], kind)
        invariant
            i <= j <= s@.len(),
            kind == 0 ==> skip_while(s@, i as int, |d: char| is_space(d)) == skip_while(s@, j as int, |d: char| is_space(d)),
            kind == 1 ==> skip_while(s@, i as int, |d: char| is_letter(d) || is_digit(d))
                == skip_while(s@, j as int, |d: char| is_letter(d) || is_digit(d)),
            kind == 2 ==> skip_while(s@, i as int, |d: char| is_digit(d)) == skip_while(s@, j as int, |d: char| is_digit(d)),
            kind >= 3 ==> skip_while(s@, i as int, |d: char| d != '\n') == skip_while(s@, j as int, |d: char| d != '\n'),
        decreases s@.len() - j,
    {
        j += 1;
    }
    j
}

impl KindLexer {
    pub closed spec fn input(&self) -> Seq<char> {
        self.chars@
    }

    /// Where the last token found begins and ends.
    pub closed spec fn span(&self) -> (int, int) {
        (self.start as int, self.end as int)
    }

    /// The next token, which then spans from the end of the last one to
    /// where `kind_at` says it ends; None at the end of the input.
    pub fn next(&mut self) -> (r: Option<Result<TokenKind, ()>>)
        requires
            0 <= old(self).span().0 <= old(self).span().1 <= old(self).input().len(),
        ensures
            final(self).input() == old(self).input(),
            0 <= final(self).span().0 <= final(self).span().1 <= final(self).input().len(),
            match kind_at(old(self).input(), old(self).span().1) {
                Some((k, e)) => r == Some(k) && final(self).span() == (old(self).span().1, e),
                None => r is None && final(self).span() == old(self).span(),
            },
    {
        let pos = self.end;
        if pos >= self.chars.len() {
            return None;
        }
        let c = self.chars[pos];
        let (kind, e) = if c == ' ' || c == '\n' {
            (Ok(TokenKind::Whitespace), skip_run(&self.chars, pos, 0))
        } else if ('a' <= c && c <= 'z') || ('A' <= c && c <= 'Z') {
            let e = skip_run(&self.chars, pos, 1);
            let k = if spells(&self.chars, pos, e, "fn") {
                TokenKind::FnKw
            } else if spells(&self.chars, pos, e, "let") {
                TokenKind::LetKw
            } else {
                TokenKind::Ident
            };
            (Ok(k), e)
        } else if '0' <= c && c <= '9' {
            (Ok(TokenKind::Number), skip_run(&self.chars, pos, 2))
        } else if c == '+' {
            (Ok(TokenKind::Plus), pos + 1)
        } else if c == '-' {
            (Ok(TokenKind::Minus), pos + 1)
        } else if c == '*' {
            (Ok(TokenKind::Star), pos + 1)
        } else if c == '/' {
            (Ok(TokenKind::Slash), pos + 1)
        } else if c == '=' {
            (Ok(TokenKind::Equals), pos + 1)
        } else if c == '(' {
            (Ok(TokenKind::LParen), pos + 1)
        } else if c == ')' {
            (Ok(TokenKind::RParen), pos + 1)
        } else if c == '{' {
            (Ok(TokenKind::LBrace), pos + 1)
        } else if c == '}' {
            (Ok(TokenKind::RBrace), pos + 1)
        } else if c == '#' {
            (Ok(TokenKind::Comment), skip_run(&self.chars, pos, 3))
        } else {
            (Err(()), pos + 1)
        };
        self.start = pos;
        self.end = e;
        Some(kind)
    }

    /// The text of the last token found.
    pub fn slice(&self) -> (r: String)
        requires
            0 <= self.span().0 <= self.span().1 <= self.input().len(),
        ensures
            r@ == self.input().subrange(self.span().0, self.span().1),
    {
        string_from_chars(&self.chars, self.start, self.end)
    }
}

} // verus!
