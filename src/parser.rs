//! The parser: recursive descent over the token sequence, one function per
//! precedence level, from assignment (loosest) down to primary expressions.
//! Parsing stops at the first syntax error.
use vstd::prelude::*;
use crate::ast::{lemma_stmts_view_push, stmt_view, stmts_view, Expr, Stmt, StmtView};
use crate::error::LoxError;
use crate::number::{literal_value, Number};
use crate::scanner::{error_view, ErrorView};
use crate::token::{kind_name, Token, TokenType};

verus! {

/// A token sequence the parser can walk: it ends with end-of-input.
pub open spec fn well_ended(toks: Seq<Token>) -> bool {
    0 < toks.len() <= usize::MAX && toks.last().token_type == TokenType::Eof
}

pub open spec fn at_end(toks: Seq<Token>, pos: int) -> bool {
    !(0 <= pos < toks.len()) || toks[pos].token_type == TokenType::Eof
}

pub open spec fn kind_at(toks: Seq<Token>, pos: int) -> TokenType {
    if 0 <= pos < toks.len() { toks[pos].token_type } else { TokenType::Eof }
}

pub open spec fn line_at(toks: Seq<Token>, pos: int) -> int {
    if 0 <= pos < toks.len() { toks[pos].line as int } else { 0 }
}

/// Whether the token at `pos` is of kind `t` (never at the end).
pub open spec fn check(toks: Seq<Token>, pos: int, t: TokenType) -> bool {
    !at_end(toks, pos) && toks[pos].token_type == t
}

pub open spec fn syntax_error<T>(toks: Seq<Token>, pos: int, message: Seq<char>) -> Result<T, ErrorView> {
    Err((message, Some(line_at(toks, pos))))
}

/// Past a token of kind `t` at `pos`, or the error naming what was found.
pub open spec fn consume(toks: Seq<Token>, pos: int, t: TokenType) -> Result<int, ErrorView> {
    if check(toks, pos, t) {
        Ok(pos + 1)
    } else {
        syntax_error(toks, pos, "Expected "@ + kind_name(t) + ", but got "@ + kind_name(kind_at(toks, pos)))
    }
}

/// The infix operators of each binary level: 4 equality, 3 relational,
/// 2 additive, 1 multiplicative.
pub open spec fn level_operator(level: nat, t: TokenType) -> bool {
    if level == 4 {
        t == TokenType::EqualEqual || t == TokenType::BangEqual
    } else if level == 3 {
        t == TokenType::Greater || t == TokenType::GreaterEqual || t == TokenType::Less || t
            == TokenType::LessEqual
    } else if level == 2 {
        t == TokenType::Plus || t == TokenType::Minus
    } else if level == 1 {
        t == TokenType::Star || t == TokenType::Slash
    } else {
        false
    }
}

pub type ExprParse = Result<(Expr, int), ErrorView>;

pub open spec fn no_progress<T>(toks: Seq<Token>, pos: int) -> Result<T, ErrorView> {
    syntax_error(toks, pos, "Parser made no progress"@)
}

/// An expression at `pos`: an assignment, which is right-associative and
/// needs a variable on its left.
pub open spec fn parse_assignment(toks: Seq<Token>, pos: int) -> ExprParse
    decreases toks.len() - pos, 7nat,
{
    match parse_binary(toks, pos, 4) {
        Err(x) => Err(x),
        Ok((e, p)) => if !(pos < p <= toks.len()) {
            no_progress(toks, pos)
        } else if check(toks, p, TokenType::Equal) {
            match parse_assignment(toks, p + 1) {
                Err(x) => Err(x),
                Ok((v, p2)) => match e {
                    Expr::Variable(name) => Ok((Expr::Assign { name, value: Box::new(v), line: toks[p].line }, p2)),
                    _ => syntax_error(toks, p, "Invalid assignment target"@),
                },
            }
        } else {
            Ok((e, p))
        },
    }
}

/// A left-associative chain of operators of `level`, whose operands are of
/// the level below (the unary level below 1).
pub open spec fn parse_binary(toks: Seq<Token>, pos: int, level: nat) -> ExprParse
    decreases toks.len() - pos, level + 2,
{
    if level == 0 {
        parse_unary(toks, pos)
    } else {
        match parse_binary(toks, pos, (level - 1) as nat) {
            Err(x) => Err(x),
            Ok((e, p)) => if pos < p <= toks.len() {
                binary_rest(toks, e, p, level)
            } else {
                no_progress(toks, pos)
            },
        }
    }
}

/// The rest of a chain of `level` whose operands so far make `left`.
pub open spec fn binary_rest(toks: Seq<Token>, left: Expr, p: int, level: nat) -> ExprParse
    decreases toks.len() - p, 0nat,
{
    if level > 0 && !at_end(toks, p) && level_operator(level, toks[p].token_type) {
        match parse_binary(toks, p + 1, (level - 1) as nat) {
            Err(x) => Err(x),
            Ok((r, p2)) => if p + 1 < p2 <= toks.len() {
                binary_rest(toks, Expr::Binary { left: Box::new(left), operator: toks[p], right: Box::new(r) }, p2, level)
            } else {
                no_progress(toks, p + 1)
            },
        }
    } else {
        Ok((left, p))
    }
}

/// Prefix `!` and `-`, right-associative, over a primary expression.
pub open spec fn parse_unary(toks: Seq<Token>, pos: int) -> ExprParse
    decreases toks.len() - pos, 1nat,
{
    if check(toks, pos, TokenType::Bang) || check(toks, pos, TokenType::Minus) {
        match parse_unary(toks, pos + 1) {
            Err(x) => Err(x),
            Ok((r, p)) => Ok((Expr::Unary { operator: toks[pos], right: Box::new(r) }, p)),
        }
    } else {
        parse_primary(toks, pos)
    }
}

/// A literal, a variable, or a parenthesized expression.
pub open spec fn parse_primary(toks: Seq<Token>, pos: int) -> ExprParse
    decreases toks.len() - pos, 0nat,
{
    if at_end(toks, pos) {
        syntax_error(toks, pos, "Unexpected end of input"@)
    } else {
        let t = toks[pos];
        match t.token_type {
            TokenType::String => Ok((Expr::String(t.lexeme), pos + 1)),
            TokenType::Number => match literal_value(t.lexeme@) {
                Some(n) => Ok((Expr::Number(n), pos + 1)),
                None => syntax_error(toks, pos, "Number literal out of range."@),
            },
            TokenType::True => Ok((Expr::Boolean(true), pos + 1)),
            TokenType::False => Ok((Expr::Boolean(false), pos + 1)),
            TokenType::Nil => Ok((Expr::Nil, pos + 1)),
            TokenType::Identifier => Ok((Expr::Variable(t.lexeme), pos + 1)),
            TokenType::LeftParen => match parse_assignment(toks, pos + 1) {
                Err(x) => Err(x),
                Ok((e, p)) => match consume(toks, p, TokenType::RightParen) {
                    Err(x) => Err(x),
                    Ok(p2) => Ok((Expr::Grouping(Box::new(e)), p2)),
                },
            },
            _ => syntax_error(toks, pos, "Unexpected token: '"@ + t.lexeme@ + "'"@),
        }
    }
}

pub type StmtParse = Result<(StmtView, int), ErrorView>;

/// A statement at `pos`: `print e;`, `var name [= e];`, a block, or an
/// expression statement, whose `;` is needed when `strict` and optional
/// otherwise.
pub open spec fn parse_statement(toks: Seq<Token>, pos: int, strict: bool) -> StmtParse
    decreases toks.len() - pos, 1nat,
{
    if check(toks, pos, TokenType::Print) {
        match parse_assignment(toks, pos + 1) {
            Err(x) => Err(x),
            Ok((e, p)) => match consume(toks, p, TokenType::Semicolon) {
                Err(x) => Err(x),
                Ok(p2) => Ok((StmtView::Print(e), p2)),
            },
        }
    } else if check(toks, pos, TokenType::Var) {
        if check(toks, pos + 1, TokenType::Identifier) {
            let name = toks[pos + 1].lexeme;
            if check(toks, pos + 2, TokenType::Equal) {
                match parse_assignment(toks, pos + 3) {
                    Err(x) => Err(x),
                    Ok((e, p)) => match consume(toks, p, TokenType::Semicolon) {
                        Err(x) => Err(x),
                        Ok(p2) => Ok((StmtView::Var(name, e), p2)),
                    },
                }
            } else {
                match consume(toks, pos + 2, TokenType::Semicolon) {
                    Err(x) => Err(x),
                    Ok(p2) => Ok((StmtView::Var(name, Expr::Nil), p2)),
                }
            }
        } else {
            syntax_error(toks, pos + 1, "Expected variable name after 'var'"@)
        }
    } else if check(toks, pos, TokenType::LeftBrace) {
        match parse_block_items(toks, pos + 1, strict) {
            Err(x) => Err(x),
            Ok((items, p)) => Ok((StmtView::Block(items), p)),
        }
    } else {
        match parse_assignment(toks, pos) {
            Err(x) => Err(x),
            Ok((e, p)) => if strict {
                match consume(toks, p, TokenType::Semicolon) {
                    Err(x) => Err(x),
                    Ok(p2) => Ok((StmtView::Expression(e), p2)),
                }
            } else if check(toks, p, TokenType::Semicolon) {
                Ok((StmtView::Expression(e), p + 1))
            } else {
                Ok((StmtView::Expression(e), p))
            },
        }
    }
}

/// The statements of a block from `pos` up to its closing brace, and the
/// position past the brace; running out of tokens first is an error.
pub open spec fn parse_block_items(toks: Seq<Token>, pos: int, strict: bool) -> Result<(Seq<StmtView>, int), ErrorView>
    decreases toks.len() - pos, 2nat,
{
    if check(toks, pos, TokenType::RightBrace) {
        Ok((Seq::empty(), pos + 1))
    } else if at_end(toks, pos) {
        match consume(toks, pos, TokenType::RightBrace) {
            Err(x) => Err(x),
            Ok(p) => Ok((Seq::empty(), p)),
        }
    } else {
        match parse_statement(toks, pos, strict) {
            Err(x) => Err(x),
            Ok((st, p)) => if pos < p <= toks.len() {
                match parse_block_items(toks, p, strict) {
                    Err(x) => Err(x),
                    Ok((rest, p2)) => Ok((seq![st] + rest, p2)),
                }
            } else {
                no_progress(toks, pos)
            },
        }
    }
}

/// A whole program from `pos`: statements up to end-of-input.
pub open spec fn parse_program(toks: Seq<Token>, pos: int, strict: bool) -> Result<Seq<StmtView>, ErrorView>
    decreases toks.len() - pos,
{
    if at_end(toks, pos) {
        Ok(Seq::empty())
    } else {
        match parse_statement(toks, pos, strict) {
            Err(x) => Err(x),
            Ok((st, p)) => if pos < p <= toks.len() {
                match parse_program(toks, p, strict) {
                    Err(x) => Err(x),
                    Ok(rest) => Ok(seq![st] + rest),
                }
            } else {
                no_progress(toks, pos)
            },
        }
    }
}

pub open spec fn expr_parse_view(r: Result<(Expr, usize), LoxError>) -> ExprParse {
    match r {
        Ok((e, p)) => Ok((e, p as int)),
        Err(x) => Err(error_view(x)),
    }
}

pub open spec fn stmt_parse_view(r: Result<(Stmt, usize), LoxError>) -> StmtParse {
    match r {
        Ok((s, p)) => Ok((stmt_view(s), p as int)),
        Err(x) => Err(error_view(x)),
    }
}

/// `r` with `pre` put before the statements it found.
pub open spec fn prepend(pre: Seq<StmtView>, r: Result<(Seq<StmtView>, int), ErrorView>) -> Result<(Seq<StmtView>, int), ErrorView> {
    match r {
        Ok((rest, p)) => Ok((pre + rest, p)),
        Err(x) => Err(x),
    }
}

pub open spec fn prepend_all(pre: Seq<StmtView>, r: Result<Seq<StmtView>, ErrorView>) -> Result<Seq<StmtView>, ErrorView> {
    match r {
        Ok(rest) => Ok(pre + rest),
        Err(x) => Err(x),
    }
}

pub open spec fn progressed<T>(r: Result<(T, usize), LoxError>, pos: int, len: int) -> bool {
    r matches Ok((_, p)) ==> pos < p < len
}

/// A parser over one token sequence.
pub struct Parser {
    tokens: Vec<Token>,
    current: usize,
    require_semicolon: bool,
}

impl Parser {
    pub closed spec fn tokens(&self) -> Seq<Token> {
        self.tokens@
    }

    pub closed spec fn strict(&self) -> bool {
        self.require_semicolon
    }

    /// A parser over `tokens`; with `require_semicolon` an expression
    /// statement needs its trailing `;`.
    pub fn new(tokens: Vec<Token>, require_semicolon: bool) -> (r: Self)
        ensures
            r.tokens() == tokens@,
            r.strict() == require_semicolon,
    {
        Parser { tokens, current: 0, require_semicolon }
    }

    fn is_at_end(&self, pos: usize) -> (r: bool)
        requires
            pos < self.tokens@.len(),
        ensures
            r == at_end(self.tokens@, pos as int),
    {
        self.peek(pos).token_type == TokenType::Eof
    }

    fn peek(&self, pos: usize) -> (r: &Token)
        requires
            pos < self.tokens@.len(),
        ensures
            *r == self.tokens@[pos as int],
    {
        &self.tokens[pos]
    }

    fn check(&self, pos: usize, token_type: TokenType) -> (r: bool)
        requires
            pos < self.tokens@.len(),
        ensures
            r == check(self.tokens@, pos as int, token_type),
    {
        if self.is_at_end(pos) {
            false
        } else {
            self.peek(pos).token_type == token_type
        }
    }

    /// The position after `pos`; end-of-input is never passed.
    fn advance(&self, pos: usize) -> (r: usize)
        requires
            pos < self.tokens@.len(),
            well_ended(self.tokens@),
        ensures
            r < self.tokens@.len(),
            at_end(self.tokens@, pos as int) ==> r == pos,
            !at_end(self.tokens@, pos as int) ==> r == pos + 1,
    {
        let n = self.tokens.len(); // a Vec length: `pos + 1` stays in range
        if !self.is_at_end(pos) {
            pos + 1
        } else {
            pos
        }
    }

    /// Past a token of kind `expected` at `pos`, or the error naming what
    /// was found.
    fn consume(&self, pos: usize, expected: TokenType) -> (r: Result<usize, LoxError>)
        requires
            pos < self.tokens@.len(),
            well_ended(self.tokens@),
        ensures
            match consume(self.tokens@, pos as int, expected) {
                Ok(p) => r == Ok::<usize, LoxError>(p as usize) && p < self.tokens@.len(),
                Err(x) => r is Err && error_view(r->Err_0) == x,
            },
    {
        if self.check(pos, expected) {
            Ok(self.advance(pos))
        } else {
            let mut message = String::from_str("Expected ");
            message.append(expected.kind());
            message.append(", but got ");
            message.append(self.peek(pos).token_type.kind());
            Err(LoxError::with_message(message, Some(self.peek(pos).line)))
        }
    }

    /// An expression at `pos`, as `parse_assignment` says.
    fn expression(&self, pos: usize) -> (r: Result<(Expr, usize), LoxError>)
        requires
            pos < self.tokens@.len(),
            well_ended(self.tokens@),
        ensures
            expr_parse_view(r) == parse_assignment(self.tokens@, pos as int),
            progressed(r, pos as int, self.tokens@.len() as int),
        decreases self.tokens@.len() - pos, 12nat,
    {
        self.assignment(pos)
    }

    fn assignment(&self, pos: usize) -> (r: Result<(Expr, usize), LoxError>)
        requires
            pos < self.tokens@.len(),
            well_ended(self.tokens@),
        ensures
            expr_parse_view(r) == parse_assignment(self.tokens@, pos as int),
            progressed(r, pos as int, self.tokens@.len() as int),
        decreases self.tokens@.len() - pos, 11nat,
    {
        let (expr, p) = self.binary(pos, 4)?;
        if self.check(p, TokenType::Equal) {
            let line = self.peek(p).line;
            let (value, p2) = self.assignment(p + 1)?;
            match expr {
                Expr::Variable(name) => Ok((Expr::Assign { name, value: Box::new(value), line }, p2)),
                _ => Err(LoxError::new("Invalid assignment target", Some(line))),
            }
        } else {
            Ok((expr, p))
        }
    }

    /// Parses the whole token sequence into statements, or fails with the
    /// first syntax error, as `parse_program` says.
    pub fn parse(&mut self) -> (r: Result<Vec<Stmt>, LoxError>)
        requires
            well_ended(old(self).tokens()),
        ensures
            final(self).tokens() == old(self).tokens(),
            final(self).strict() == old(self).strict(),
            match parse_program(old(self).tokens(), 0, old(self).strict()) {
                Ok(ss) => r is Ok && stmts_view(r->Ok_0@) == ss,
                Err(x) => r is Err && error_view(r->Err_0) == x,
            },
    {
        let ghost toks = self.tokens@;
        let mut statements: Vec<Stmt> = Vec::new();
        let mut p: usize = 0;
        proof {
            if let Ok(all) = parse_program(toks, 0, self.require_semicolon) {
                assert(Seq::<StmtView>::empty() + all =~= all);
            }
        }
        while !self.is_at_end(p)
            invariant
                toks == self.tokens@,
                well_ended(toks),
                p < toks.len(),
                parse_program(toks, 0, self.require_semicolon)
                    == prepend_all(stmts_view(statements@), parse_program(toks, p as int, self.require_semicolon)),
            decreases toks.len() - p,
        {
            let (st, p2) = self.statement(p)?;
            proof {
                lemma_stmts_view_push(statements@, st);
                if let Ok(more) = parse_program(toks, p2 as int, self.require_semicolon) {
                    assert(stmts_view(statements@) + (seq![stmt_view(st)] + more) =~= stmts_view(statements@).push(stmt_view(st)) + more);
                }
            }
            statements.push(st);
            p = p2;
        }
        proof {
            assert(stmts_view(statements@) + Seq::<StmtView>::empty() =~= stmts_view(statements@));
        }
        self.current = p;
        Ok(statements)
    }

    /// A statement at `pos`, as `parse_statement` says.
    fn statement(&self, pos: usize) -> (r: Result<(Stmt, usize), LoxError>)
        requires
            pos < self.tokens@.len(),
            well_ended(self.tokens@),
        ensures
            stmt_parse_view(r) == parse_statement(self.tokens@, pos as int, self.require_semicolon),
            progressed(r, pos as int, self.tokens@.len() as int),
        decreases self.tokens@.len() - pos, 0nat,
    {
        if self.check(pos, TokenType::Print) {
            return self.print_statement(pos + 1);
        }
        if self.check(pos, TokenType::Var) {
            return self.var_declaration(pos + 1);
        }
        if self.check(pos, TokenType::LeftBrace) {
            return self.block(pos + 1);
        }
        self.expression_statement(pos)
    }

    fn print_statement(&self, pos: usize) -> (r: Result<(Stmt, usize), LoxError>)
        requires
            0 < pos < self.tokens@.len(),
            well_ended(self.tokens@),
            check(self.tokens@, pos - 1, TokenType::Print),
        ensures
            stmt_parse_view(r) == parse_statement(self.tokens@, pos - 1, self.require_semicolon),
            progressed(r, pos as int, self.tokens@.len() as int),
    {
        let (value, p) = self.expression(pos)?;
        let p2 = self.consume(p, TokenType::Semicolon)?;
        Ok((Stmt::Print(value), p2))
    }

    fn var_declaration(&self, pos: usize) -> (r: Result<(Stmt, usize), LoxError>)
        requires
            0 < pos < self.tokens@.len(),
            well_ended(self.tokens@),
            check(self.tokens@, pos - 1, TokenType::Var),
        ensures
            stmt_parse_view(r) == parse_statement(self.tokens@, pos - 1, self.require_semicolon),
            progressed(r, pos as int, self.tokens@.len() as int),
    {
        if !self.check(pos, TokenType::Identifier) {
            return Err(LoxError::new("Expected variable name after 'var'", Some(self.peek(pos).line)));
        }
        let name = self.peek(pos).lexeme.clone();
        let p = pos + 1;
        if self.check(p, TokenType::Equal) {
            let (initializer, p2) = self.expression(p + 1)?;
            let p3 = self.consume(p2, TokenType::Semicolon)?;
            Ok((Stmt::Var(name, initializer), p3))
        } else {
            let p3 = self.consume(p, TokenType::Semicolon)?;
            Ok((Stmt::Var(name, Expr::Nil), p3))
        }
    }

    fn expression_statement(&self, pos: usize) -> (r: Result<(Stmt, usize), LoxError>)
        requires
            pos < self.tokens@.len(),
            well_ended(self.tokens@),
            !check(self.tokens@, pos as int, TokenType::Print),
            !check(self.tokens@, pos as int, TokenType::Var),
            !check(self.tokens@, pos as int, TokenType::LeftBrace),
        ensures
            stmt_parse_view(r) == parse_statement(self.tokens@, pos as int, self.require_semicolon),
            progressed(r, pos as int, self.tokens@.len() as int),
    {
        let (expr, p) = self.expression(pos)?;
        if self.require_semicolon {
            let p2 = self.consume(p, TokenType::Semicolon)?;
            return Ok((Stmt::Expression(expr), p2));
        }
        if self.check(p, TokenType::Semicolon) {
            return Ok((Stmt::Expression(expr), self.advance(p)));
        }
        Ok((Stmt::Expression(expr), p))
    }

    /// The statements of a block whose `{` is just before `pos`.
    fn block(&self, pos: usize) -> (r: Result<(Stmt, usize), LoxError>)
        requires
            0 < pos < self.tokens@.len(),
            well_ended(self.tokens@),
            check(self.tokens@, pos - 1, TokenType::LeftBrace),
        ensures
            stmt_parse_view(r) == parse_statement(self.tokens@, pos - 1, self.require_semicolon),
            progressed(r, pos as int, self.tokens@.len() as int),
        decreases self.tokens@.len() - pos, 1nat,
    {
        let ghost toks = self.tokens@;
        let mut items: Vec<Stmt> = Vec::new();
        let mut p = pos;
        proof {
            if let Ok((all, e)) = parse_block_items(toks, pos as int, self.require_semicolon) {
                assert(Seq::<StmtView>::empty() + all =~= all);
            }
        }
        while !self.check(p, TokenType::RightBrace) && !self.is_at_end(p)
            invariant
                toks == self.tokens@,
                well_ended(toks),
                pos <= p < toks.len(),
                0 < pos,
                check(toks, pos - 1, TokenType::LeftBrace),
                parse_block_items(toks, pos as int, self.require_semicolon)
                    == prepend(stmts_view(items@), parse_block_items(toks, p as int, self.require_semicolon)),
            decreases toks.len() - p,
        {
            let (st, p2) = self.statement(p)?;
            proof {
                lemma_stmts_view_push(items@, st);
                let rest = parse_block_items(toks, p2 as int, self.require_semicolon);
                if let Ok((more, e)) = rest {
                    assert(stmts_view(items@) + (seq![stmt_view(st)] + more) =~= stmts_view(items@).push(stmt_view(st)) + more);
                }
            }
            items.push(st);
            p = p2;
        }
        let p2 = self.consume(p, TokenType::RightBrace)?;
        proof {
            assert(stmts_view(items@) + Seq::<StmtView>::empty() =~= stmts_view(items@));
        }
        Ok((Stmt::Block(items), p2))
    }

    fn is_level_operator(level: u8, t: TokenType) -> (r: bool)
        ensures
            r == level_operator(level as nat, t),
    {
        match level {
            4 => t == TokenType::EqualEqual || t == TokenType::BangEqual,
            3 => t == TokenType::Greater || t == TokenType::GreaterEqual || t == TokenType::Less || t == TokenType::LessEqual,
            2 => t == TokenType::Plus || t == TokenType::Minus,
            1 => t == TokenType::Star || t == TokenType::Slash,
            _ => false,
        }
    }

    /// The operand of a chain of `level`: the level below, or a unary
    /// expression below level 1.
    fn operand(&self, pos: usize, level: u8) -> (r: Result<(Expr, usize), LoxError>)
        requires
            pos < self.tokens@.len(),
            well_ended(self.tokens@),
            1 <= level <= 4,
        ensures
            expr_parse_view(r) == parse_binary(self.tokens@, pos as int, (level - 1) as nat),
            progressed(r, pos as int, self.tokens@.len() as int),
        decreases self.tokens@.len() - pos, 2 * level as nat + 1,
    {
        if level == 1 {
            self.unary(pos)
        } else {
            self.binary(pos, level - 1)
        }
    }

    /// A left-associative chain of operators of `level`, as `parse_binary`
    /// says.
    fn binary(&self, pos: usize, level: u8) -> (r: Result<(Expr, usize), LoxError>)
        requires
            pos < self.tokens@.len(),
            well_ended(self.tokens@),
            1 <= level <= 4,
        ensures
            expr_parse_view(r) == parse_binary(self.tokens@, pos as int, level as nat),
            progressed(r, pos as int, self.tokens@.len() as int),
        decreases self.tokens@.len() - pos, 2 * level as nat + 2,
    {
        let (mut expr, mut p) = self.operand(pos, level)?;
        while !self.is_at_end(p) && Self::is_level_operator(level, self.peek(p).token_type)
            invariant
                well_ended(self.tokens@),
                1 <= level <= 4,
                pos < p < self.tokens@.len(),
                parse_binary(self.tokens@, pos as int, level as nat) == binary_rest(self.tokens@, expr, p as int, level as nat),
            decreases self.tokens@.len() - p,
        {
            let operator = self.peek(p).duplicate();
            let (right, p2) = self.operand(p + 1, level)?;
            expr = Expr::Binary { left: Box::new(expr), operator, right: Box::new(right) };
            p = p2;
        }
        Ok((expr, p))
    }

    /// The multiplicative level: `*` and `/`.
    fn multiplication(&self, pos: usize) -> (r: Result<(Expr, usize), LoxError>)
        requires
            pos < self.tokens@.len(),
            well_ended(self.tokens@),
        ensures
            expr_parse_view(r) == parse_binary(self.tokens@, pos as int, 1),
    {
        self.binary(pos, 1)
    }

    /// The additive level: `+` and `-`.
    fn addition(&self, pos: usize) -> (r: Result<(Expr, usize), LoxError>)
        requires
            pos < self.tokens@.len(),
            well_ended(self.tokens@),
        ensures
            expr_parse_view(r) == parse_binary(self.tokens@, pos as int, 2),
    {
        self.binary(pos, 2)
    }

    /// The relational level: `<`, `<=`, `>` and `>=`.
    fn relational(&self, pos: usize) -> (r: Result<(Expr, usize), LoxError>)
        requires
            pos < self.tokens@.len(),
            well_ended(self.tokens@),
        ensures
            expr_parse_view(r) == parse_binary(self.tokens@, pos as int, 3),
    {
        self.binary(pos, 3)
    }

    /// The equality level: `==` and `!=`.
    fn equality(&self, pos: usize) -> (r: Result<(Expr, usize), LoxError>)
        requires
            pos < self.tokens@.len(),
            well_ended(self.tokens@),
        ensures
            expr_parse_view(r) == parse_binary(self.tokens@, pos as int, 4),
    {
        self.binary(pos, 4)
    }

    fn unary(&self, pos: usize) -> (r: Result<(Expr, usize), LoxError>)
        requires
            pos < self.tokens@.len(),
            well_ended(self.tokens@),
        ensures
            expr_parse_view(r) == parse_unary(self.tokens@, pos as int),
            progressed(r, pos as int, self.tokens@.len() as int),
        decreases self.tokens@.len() - pos, 1nat,
    {
        if self.check(pos, TokenType::Bang) || self.check(pos, TokenType::Minus) {
            let operator = self.peek(pos).duplicate();
            let (right, p) = self.unary(pos + 1)?;
            return Ok((Expr::Unary { operator, right: Box::new(right) }, p));
        }
        self.primary(pos)
    }

    fn primary(&self, pos: usize) -> (r: Result<(Expr, usize), LoxError>)
        requires
            pos < self.tokens@.len(),
            well_ended(self.tokens@),
        ensures
            expr_parse_view(r) == parse_primary(self.tokens@, pos as int),
            progressed(r, pos as int, self.tokens@.len() as int),
        decreases self.tokens@.len() - pos, 0nat,
    {
        if self.is_at_end(pos) {
            return Err(LoxError::new("Unexpected end of input", Some(self.peek(pos).line)));
        }
        let token = self.peek(pos);
        let next = self.advance(pos);
        match token.token_type {
            TokenType::String => Ok((Expr::String(token.lexeme.clone()), next)),
            TokenType::Number => match Number::from_literal(token.lexeme.as_str()) {
                Some(n) => Ok((Expr::Number(n), next)),
                None => Err(LoxError::new("Number literal out of range.", Some(token.line))),
            },
            TokenType::True => Ok((Expr::Boolean(true), next)),
            TokenType::False => Ok((Expr::Boolean(false), next)),
            TokenType::Nil => Ok((Expr::Nil, next)),
            TokenType::Identifier => Ok((Expr::Variable(token.lexeme.clone()), next)),
            TokenType::LeftParen => {
                let (expr, p) = self.expression(next)?;
                let p2 = self.consume(p, TokenType::RightParen)?;
                Ok((Expr::Grouping(Box::new(expr)), p2))
            },
            _ => {
                let mut message = String::from_str("Unexpected token: '");
                message.append(token.lexeme.as_str());
                message.append("'");
                Err(LoxError::with_message(message, Some(token.line)))
            },
        }
    }
}

} // verus!
