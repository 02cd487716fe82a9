//! Expression and statement trees.
use vstd::prelude::*;
use crate::number::{number_text, Number};
use crate::token::Token;

verus! {

/// An expression. Each node owns its sub-expressions.
#[derive(Debug)]
pub enum Expr {
    String(String),
    Number(Number),
    Boolean(bool),
    Nil,
    Unary { operator: Token, right: Box<Expr> },
    Binary { left: Box<Expr>, operator: Token, right: Box<Expr> },
    Grouping(Box<Expr>),
    Variable(String),
    /// Assignment to a variable; `line` is the line of the `=`.
    Assign { name: String, value: Box<Expr>, line: usize },
}

/// A statement.
#[derive(Debug)]
pub enum Stmt {
    Print(Expr),
    Expression(Expr),
    Var(String, Expr),
    Block(Vec<Stmt>),
}

/// What the contracts say of a statement: a block as the sequence of what
/// its statements are.
pub enum StmtView {
    Print(Expr),
    Expression(Expr),
    Var(String, Expr),
    Block(Seq<StmtView>),
}

pub open spec fn stmt_view(s: Stmt) -> StmtView
    decreases s,
{
    match s {
        Stmt::Print(e) => StmtView::Print(e),
        Stmt::Expression(e) => StmtView::Expression(e),
        Stmt::Var(name, e) => StmtView::Var(name, e),
        Stmt::Block(v) => StmtView::Block(stmts_view(v@)),
    }
}

pub open spec fn stmts_view(ss: Seq<Stmt>) -> Seq<StmtView>
    decreases ss,
{
    if ss.len() == 0 {
        Seq::empty()
    } else {
        seq![stmt_view(ss[0])] + stmts_view(ss.drop_first())
    }
}

pub proof fn lemma_stmts_view_push(ss: Seq<Stmt>, s: Stmt)
    ensures
        stmts_view(ss.push(s)) == stmts_view(ss).push(stmt_view(s)),
    decreases ss.len(),
{
    if ss.len() == 0 {
        assert(ss.push(s).drop_first() =~= Seq::<Stmt>::empty());
        assert(stmts_view(ss.push(s)) =~= seq![stmt_view(s)] + stmts_view(Seq::<Stmt>::empty()));
    } else {
        assert(ss.push(s).drop_first() =~= ss.drop_first().push(s));
        lemma_stmts_view_push(ss.drop_first(), s);
        assert(stmts_view(ss.push(s)) =~= seq![stmt_view(ss[0])] + stmts_view(ss.drop_first()).push(stmt_view(s)));
    }
}

/// The canonical parenthesized form of an expression: operators first, as
/// in `(+ 1.0 (* 2.0 3.0))`, groups as `(group ...)`.
pub open spec fn expr_text(e: Expr) -> Seq<char>
    decreases e,
{
    match e {
        Expr::String(s) => s@,
        Expr::Number(n) => number_text(n),
        Expr::Boolean(b) => if b { "true"@ } else { "false"@ },
        Expr::Nil => "nil"@,
        Expr::Unary { operator, right } => "("@ + operator.lexeme@ + " "@ + expr_text(*right) + ")"@,
        Expr::Binary { left, operator, right } =>
            "("@ + operator.lexeme@ + " "@ + expr_text(*left) + " "@ + expr_text(*right) + ")"@,
        Expr::Grouping(inner) => "(group "@ + expr_text(*inner) + ")"@,
        Expr::Variable(name) => name@,
        Expr::Assign { name, value, line } => name@ + " "@ + expr_text(*value),
    }
}

impl Expr {
    /// Appends the canonical form of this expression to `out`.
    pub fn write_text(&self, out: &mut String)
        ensures
            final(out)@ == old(out)@ + expr_text(*self),
        decreases self,
    {
        match self {
            Expr::String(s) => out.append(s.as_str()),
            Expr::Number(n) => {
                let t = n.to_text();
                out.append(t.as_str());
            },
            Expr::Boolean(b) => out.append(if *b { "true" } else { "false" }),
            Expr::Nil => out.append("nil"),
            Expr::Unary { operator, right } => {
                out.append("(");
                out.append(operator.lexeme.as_str());
                out.append(" ");
                right.write_text(out);
                out.append(")");
            },
            Expr::Binary { left, operator, right } => {
                out.append("(");
                out.append(operator.lexeme.as_str());
                out.append(" ");
                left.write_text(out);
                out.append(" ");
                right.write_text(out);
                out.append(")");
            },
            Expr::Grouping(inner) => {
                out.append("(group ");
                inner.write_text(out);
                out.append(")");
            },
            Expr::Variable(name) => out.append(name.as_str()),
            Expr::Assign { name, value, line } => {
                out.append(name.as_str());
                out.append(" ");
                value.write_text(out);
            },
        }
        proof {
            match self {
                Expr::Unary { operator, right } => {
                    assert(old(out)@ + expr_text(*self) =~= old(out)@ + "("@ + operator.lexeme@ + " "@ + expr_text(**right) + ")"@);
                },
                Expr::Binary { left, operator, right } => {
                    assert(old(out)@ + expr_text(*self) =~= old(out)@ + "("@ + operator.lexeme@ + " "@ + expr_text(**left) + " "@ + expr_text(**right) + ")"@);
                },
                Expr::Grouping(inner) => {
                    assert(old(out)@ + expr_text(*self) =~= old(out)@ + "(group "@ + expr_text(**inner) + ")"@);
                },
                Expr::Assign { name, value, line } => {
                    assert(old(out)@ + expr_text(*self) =~= old(out)@ + name@ + " "@ + expr_text(**value));
                },
                _ => {},
            }
        }
    }

    /// The canonical form of this expression.
    pub fn to_text(&self) -> (r: String)
        ensures
            r@ == expr_text(*self),
    {
        let mut out = String::new();
        self.write_text(&mut out);
        assert(Seq::<char>::empty() + expr_text(*self) =~= expr_text(*self));
        out
    }
}

} // verus!
