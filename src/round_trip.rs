//! Fully parenthesized infix text parses back to the tree it spells: each
//! parenthesized operation becomes a group around that operation, and with
//! the groups taken away the tree is the one spelled.
use vstd::prelude::*;
use crate::ast::Expr;
use crate::number::literal_value;
use crate::parser::{at_end, binary_rest, check, level_operator, parse_assignment, parse_binary, parse_primary, parse_unary};
use crate::token::{Token, TokenType};

verus! {

/// The precedence level of an infix operator, 0 for any other kind.
pub open spec fn operator_level(t: TokenType) -> nat {
    if level_operator(4, t) {
        4
    } else if level_operator(3, t) {
        3
    } else if level_operator(2, t) {
        2
    } else if level_operator(1, t) {
        1
    } else {
        0
    }
}

/// Trees of number literals and infix operations.
pub open spec fn arithmetic(e: Expr) -> bool
    decreases e,
{
    match e {
        Expr::Number(_) => true,
        Expr::Binary { left, operator, right } => operator_level(operator.token_type) > 0 && arithmetic(*left)
            && arithmetic(*right),
        _ => false,
    }
}

/// How many tokens spell `e` with every operation in parentheses.
pub open spec fn token_count(e: Expr) -> nat
    decreases e,
{
    match e {
        Expr::Binary { left, operator, right } => 3 + token_count(*left) + token_count(*right),
        _ => 1,
    }
}

/// Whether `toks` from `i` on spell the arithmetic tree `e` with every
/// operation in parentheses: `(left op right)`, a number as a literal that
/// denotes it.
pub open spec fn spells_at(toks: Seq<Token>, i: int, e: Expr) -> bool
    decreases e,
{
    match e {
        Expr::Number(n) => 0 <= i < toks.len() && toks[i].token_type == TokenType::Number && literal_value(
            toks[i].lexeme@,
        ) == Some(n),
        Expr::Binary { left, operator, right } => {
            let k = i + 1 + token_count(*left);
            let c = k + 1 + token_count(*right);
            &&& operator_level(operator.token_type) > 0
            &&& 0 <= i
            &&& c < toks.len()
            &&& toks[i].token_type == TokenType::LeftParen
            &&& spells_at(toks, i + 1, *left)
            &&& toks[k] == operator
            &&& spells_at(toks, k + 1, *right)
            &&& toks[c].token_type == TokenType::RightParen
        },
        _ => false,
    }
}

/// The tree the parser builds for a spelled arithmetic tree: each operation
/// inside a group.
pub open spec fn grouped(e: Expr) -> Expr
    decreases e,
{
    match e {
        Expr::Binary { left, operator, right } => Expr::Grouping(
            Box::new(Expr::Binary { left: Box::new(grouped(*left)), operator, right: Box::new(grouped(*right)) }),
        ),
        _ => e,
    }
}

/// A tree with its groups taken away.
pub open spec fn ungrouped(e: Expr) -> Expr
    decreases e,
{
    match e {
        Expr::Grouping(inner) => ungrouped(*inner),
        Expr::Binary { left, operator, right } => Expr::Binary {
            left: Box::new(ungrouped(*left)),
            operator,
            right: Box::new(ungrouped(*right)),
        },
        _ => e,
    }
}

pub open spec fn no_operator_up_to(toks: Seq<Token>, y: int, top: nat) -> bool {
    forall|l: nat| 1 <= l <= top ==> !(!at_end(toks, y) && #[trigger] level_operator(l, toks[y].token_type))
}

proof fn lemma_levels_disjoint(t: TokenType, l: nat, top: nat)
    requires
        level_operator(top, t),
        operator_level(t) == top,
        l != top,
    ensures
        !level_operator(l, t),
{
}

proof fn lemma_levels_without_operator(toks: Seq<Token>, x: int, g: Expr, y: int, level: nat)
    requires
        parse_unary(toks, x) == Ok::<(Expr, int), (Seq<char>, Option<int>)>((g, y)),
        x < y <= toks.len(),
        level <= 4,
        no_operator_up_to(toks, y, level),
    ensures
        parse_binary(toks, x, level) == Ok::<(Expr, int), (Seq<char>, Option<int>)>((g, y)),
    decreases level,
{
    if level > 0 {
        lemma_levels_without_operator(toks, x, g, y, (level - 1) as nat);
        assert(!(!at_end(toks, y) && level_operator(level, toks[y].token_type)));
        assert(binary_rest(toks, g, y, level) == Ok::<(Expr, int), (Seq<char>, Option<int>)>((g, y)));
        assert(parse_binary(toks, x, level) == binary_rest(toks, g, y, level));
    }
}

proof fn lemma_levels_with_operator(toks: Seq<Token>, x: int, gl: Expr, y: int, gr: Expr, c: int, level: nat)
    requires
        parse_unary(toks, x) == Ok::<(Expr, int), (Seq<char>, Option<int>)>((gl, y)),
        parse_unary(toks, y + 1) == Ok::<(Expr, int), (Seq<char>, Option<int>)>((gr, c)),
        x < y,
        y + 1 < c < toks.len(),
        !at_end(toks, y),
        operator_level(toks[y].token_type) > 0,
        operator_level(toks[y].token_type) <= level <= 4,
        toks[c].token_type == TokenType::RightParen,
    ensures
        parse_binary(toks, x, level) == Ok::<(Expr, int), (Seq<char>, Option<int>)>(
            (Expr::Binary { left: Box::new(gl), operator: toks[y], right: Box::new(gr) }, c),
        ),
    decreases level,
{
    let op = operator_level(toks[y].token_type);
    let b = Expr::Binary { left: Box::new(gl), operator: toks[y], right: Box::new(gr) };
    assert(no_operator_up_to(toks, c, 4));
    assert(!(!at_end(toks, c) && level_operator(level, toks[c].token_type)));
    assert(binary_rest(toks, b, c, level) == Ok::<(Expr, int), (Seq<char>, Option<int>)>((b, c)));
    if level == op {
        assert forall|l: nat| 1 <= l <= (level - 1) as nat implies !(!at_end(toks, y) && #[trigger] level_operator(l, toks[y].token_type)) by {
            lemma_levels_disjoint(toks[y].token_type, l, level);
        }
        lemma_levels_without_operator(toks, x, gl, y, (level - 1) as nat);
        lemma_levels_without_operator(toks, y + 1, gr, c, (level - 1) as nat);
        assert(level_operator(level, toks[y].token_type));
        assert(binary_rest(toks, gl, y, level) == binary_rest(toks, b, c, level));
        assert(parse_binary(toks, x, level) == binary_rest(toks, gl, y, level));
    } else {
        lemma_levels_with_operator(toks, x, gl, y, gr, c, (level - 1) as nat);
        assert(parse_binary(toks, x, level) == binary_rest(toks, b, c, level));
    }
}

proof fn lemma_primary_is_unary(toks: Seq<Token>, x: int)
    requires
        0 <= x < toks.len(),
        toks[x].token_type == TokenType::Number || toks[x].token_type == TokenType::LeftParen,
    ensures
        parse_unary(toks, x) == parse_primary(toks, x),
{
}

/// A spelled arithmetic tree is one primary expression: the literal, or the
/// group of the parenthesized operation.
proof fn lemma_spelled_primary(toks: Seq<Token>, i: int, e: Expr)
    requires
        spells_at(toks, i, e),
    ensures
        parse_primary(toks, i) == Ok::<(Expr, int), (Seq<char>, Option<int>)>((grouped(e), i + token_count(e))),
    decreases e,
{
    match e {
        Expr::Number(n) => {},
        Expr::Binary { left, operator, right } => {
            let x = i + 1;
            let y = x + token_count(*left);
            let c = y + 1 + token_count(*right);
            lemma_spelled_primary(toks, x, *left);
            lemma_spelled_primary(toks, y + 1, *right);
            lemma_spells_kind(toks, x, *left);
            lemma_spells_kind(toks, y + 1, *right);
            lemma_primary_is_unary(toks, x);
            lemma_primary_is_unary(toks, y + 1);
            lemma_levels_with_operator(toks, x, grouped(*left), y, grouped(*right), c, 4);
            let b = Expr::Binary { left: Box::new(grouped(*left)), operator, right: Box::new(grouped(*right)) };
            assert(!check(toks, c, TokenType::Equal));
            assert(parse_assignment(toks, x) == Ok::<(Expr, int), (Seq<char>, Option<int>)>((b, c)));
        },
        _ => {},
    }
}

proof fn lemma_spells_kind(toks: Seq<Token>, i: int, e: Expr)
    requires
        spells_at(toks, i, e),
    ensures
        0 <= i < toks.len(),
        toks[i].token_type == TokenType::Number || toks[i].token_type == TokenType::LeftParen,
        i + token_count(e) <= toks.len(),
    decreases e,
{
    if let Expr::Binary { left, operator, right } = e {
        lemma_spells_kind(toks, i + 1, *left);
    }
}

proof fn lemma_ungrouped_grouped(e: Expr)
    requires
        arithmetic(e),
    ensures
        ungrouped(grouped(e)) == e,
    decreases e,
{
    if let Expr::Binary { left, operator, right } = e {
        lemma_ungrouped_grouped(*left);
        lemma_ungrouped_grouped(*right);
        let inner = Expr::Binary { left: Box::new(grouped(*left)), operator, right: Box::new(grouped(*right)) };
        assert(grouped(e) == Expr::Grouping(Box::new(inner)));
        assert(ungrouped(grouped(e)) == ungrouped(inner));
        assert(ungrouped(inner) == Expr::Binary { left: Box::new(ungrouped(grouped(*left))), operator, right: Box::new(ungrouped(grouped(*right))) });
    }
}

/// Round trip of the parenthesized form: tokens that spell an arithmetic
/// tree `e` with every operation in parentheses, followed by a token that
/// continues no expression, parse to `e` with each operation in a group; so
/// with the groups taken away the parse gives back `e`, which the same
/// tokens spell.
pub proof fn lemma_parenthesized_round_trip(toks: Seq<Token>, e: Expr)
    requires
        arithmetic(e),
        spells_at(toks, 0, e),
        token_count(e) < toks.len(),
        toks[token_count(e) as int].token_type == TokenType::Eof || toks[token_count(e) as int].token_type
            == TokenType::Semicolon,
    ensures
        parse_assignment(toks, 0) == Ok::<(Expr, int), (Seq<char>, Option<int>)>((grouped(e), token_count(e) as int)),
        ungrouped(grouped(e)) == e,
        spells_at(toks, 0, ungrouped(grouped(e))),
{
    let n = token_count(e) as int;
    lemma_spelled_primary(toks, 0, e);
    lemma_spells_kind(toks, 0, e);
    lemma_primary_is_unary(toks, 0);
    assert(no_operator_up_to(toks, n, 4));
    lemma_levels_without_operator(toks, 0, grouped(e), n, 4);
    lemma_ungrouped_grouped(e);
}

} // verus!
