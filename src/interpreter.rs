//! The tree-walking evaluator. Expressions evaluate against the bindings of
//! an `Environment`; statements may change those bindings and append printed
//! lines to the output. The first runtime error stops evaluation.
use vstd::prelude::*;
use crate::ast::{stmt_view, stmts_view, Expr, Stmt, StmtView};
use crate::environment::{assigned, find, lemma_find, lookup, take, Binding, Environment};
use crate::error::LoxError;
use crate::number::{difference, is_zero, less, negation, product, quotient, sum, Number};
use crate::scanner::{error_view, ErrorView};
use crate::token::TokenType;
use crate::value::{truthy, value_text, values_equal, Value, ValueView};

verus! {

pub open spec fn result_view(r: Result<Value, LoxError>) -> Result<ValueView, ErrorView> {
    match r {
        Ok(v) => Ok(v@),
        Err(e) => Err(error_view(e)),
    }
}

pub open spec fn failure(message: Seq<char>, line: usize) -> Result<ValueView, ErrorView> {
    Err((message, Some(line as int)))
}

/// A number result, or the range error where arithmetic left the range.
pub open spec fn arithmetic(o: Option<Number>, line: usize) -> Result<ValueView, ErrorView> {
    match o {
        Some(n) => Ok(ValueView::Num(n)),
        None => failure("Number out of range."@, line),
    }
}

/// What a prefix operator yields on an operand.
pub open spec fn unary_result(op: TokenType, v: ValueView, line: usize) -> Result<ValueView, ErrorView> {
    match op {
        TokenType::Minus => match v {
            ValueView::Num(n) => arithmetic(negation(n), line),
            _ => failure("Operand must be a number."@, line),
        },
        TokenType::Bang => Ok(ValueView::Bool(!truthy(v))),
        _ => failure("Unknown unary operator"@, line),
    }
}

/// What an infix operator yields on two operands.
pub open spec fn binary_result(op: TokenType, l: ValueView, r: ValueView, line: usize) -> Result<ValueView, ErrorView> {
    match op {
        TokenType::Plus => match (l, r) {
            (ValueView::Num(a), ValueView::Num(b)) => arithmetic(sum(a, b), line),
            (ValueView::Str(a), ValueView::Str(b)) => Ok(ValueView::Str(a + b)),
            _ => failure("Operands must be two numbers or two strings."@, line),
        },
        TokenType::EqualEqual => Ok(ValueView::Bool(values_equal(l, r))),
        TokenType::BangEqual => Ok(ValueView::Bool(!values_equal(l, r))),
        TokenType::Minus | TokenType::Star | TokenType::Slash | TokenType::Greater
        | TokenType::GreaterEqual | TokenType::Less | TokenType::LessEqual => match (l, r) {
            (ValueView::Num(a), ValueView::Num(b)) => match op {
                TokenType::Minus => arithmetic(difference(a, b), line),
                TokenType::Star => arithmetic(product(a, b), line),
                TokenType::Slash => if is_zero(b) {
                    failure("Division by zero"@, line)
                } else {
                    arithmetic(quotient(a, b), line)
                },
                TokenType::Greater => Ok(ValueView::Bool(less(b, a))),
                TokenType::GreaterEqual => Ok(ValueView::Bool(!less(a, b))),
                TokenType::Less => Ok(ValueView::Bool(less(a, b))),
                _ => Ok(ValueView::Bool(!less(b, a))),
            },
            _ => failure("Operands must be numbers."@, line),
        },
        _ => Ok(ValueView::Nil),
    }
}

/// Evaluation of `e` against bindings `b`: the bindings after it (an
/// assignment changes them) and its value or error. Operands evaluate left
/// to right.
pub open spec fn eval(e: Expr, b: Seq<Binding>) -> (Seq<Binding>, Result<ValueView, ErrorView>)
    decreases e,
{
    match e {
        Expr::String(s) => (b, Ok(ValueView::Str(s@))),
        Expr::Number(n) => (b, Ok(ValueView::Num(n))),
        Expr::Boolean(x) => (b, Ok(ValueView::Bool(x))),
        Expr::Nil => (b, Ok(ValueView::Nil)),
        Expr::Unary { operator, right } => {
            let (b1, r) = eval(*right, b);
            match r {
                Ok(v) => (b1, unary_result(operator.token_type, v, operator.line)),
                Err(x) => (b1, Err(x)),
            }
        },
        Expr::Binary { left, operator, right } => {
            let (b1, l) = eval(*left, b);
            match l {
                Ok(lv) => {
                    let (b2, r) = eval(*right, b1);
                    match r {
                        Ok(rv) => (b2, binary_result(operator.token_type, lv, rv, operator.line)),
                        Err(x) => (b2, Err(x)),
                    }
                },
                Err(x) => (b1, Err(x)),
            }
        },
        Expr::Grouping(inner) => eval(*inner, b),
        Expr::Variable(name) => (b, match lookup(b, name@) {
            Some(v) => Ok(v),
            None => Err(("Undefined variable"@, None)),
        }),
        Expr::Assign { name, value, line } => {
            let (b1, r) = eval(*value, b);
            match r {
                Ok(v) => match assigned(b1, name@, v) {
                    Some(b2) => (b2, Ok(v)),
                    None => (b1, failure("Undefined variable"@, line)),
                },
                Err(x) => (b1, Err(x)),
            }
        },
    }
}

/// The state a statement leaves: bindings, printed lines, and the error that
/// stopped it, if any.
pub type RunState = (Seq<Binding>, Seq<Seq<char>>, Option<ErrorView>);

/// Execution of one statement from bindings `b` with printed lines `out`.
/// A block runs its statements in a new scope and drops that scope's
/// bindings when it ends, whether or not it failed.
pub open spec fn run(s: StmtView, b: Seq<Binding>, out: Seq<Seq<char>>) -> RunState
    decreases s,
{
    match s {
        StmtView::Print(e) => {
            let (b1, r) = eval(e, b);
            match r {
                Ok(v) => (b1, out.push(value_text(v)), None),
                Err(x) => (b1, out, Some(x)),
            }
        },
        StmtView::Expression(e) => {
            let (b1, r) = eval(e, b);
            match r {
                Ok(v) => (b1, out, None),
                Err(x) => (b1, out, Some(x)),
            }
        },
        StmtView::Var(name, e) => {
            let (b1, r) = eval(e, b);
            match r {
                Ok(v) => (b1.push((name@, v)), out, None),
                Err(x) => (b1, out, Some(x)),
            }
        },
        StmtView::Block(ss) => {
            let r = run_all(ss, b, out);
            (take(r.0, b.len() as int), r.1, r.2)
        },
    }
}

/// Execution of statements in order, up to the first error.
pub open spec fn run_all(ss: Seq<StmtView>, b: Seq<Binding>, out: Seq<Seq<char>>) -> RunState
    decreases ss,
{
    if ss.len() == 0 {
        (b, out, None)
    } else {
        let r = run(ss[0], b, out);
        if r.2 is Some {
            r
        } else {
            run_all(ss.drop_first(), r.0, r.1)
        }
    }
}

pub open spec fn lines_view(out: Seq<String>) -> Seq<Seq<char>> {
    out.map_values(|s: String| s@)
}

/// Evaluates statements against one environment and collects what they print.
pub struct Interpreter {
    pub environment: Environment,
    pub output: Vec<String>,
}

fn number_result(o: Option<Number>, line: usize) -> (r: Result<Value, LoxError>)
    ensures
        result_view(r) == arithmetic(o, line),
{
    match o {
        Some(n) => Ok(Value::Number(n)),
        None => Err(LoxError::new("Number out of range.", Some(line))),
    }
}

fn numbers_expected(line: usize) -> (r: Result<Value, LoxError>)
    ensures
        result_view(r) == failure("Operands must be numbers."@, line),
{
    Err(LoxError::new("Operands must be numbers.", Some(line)))
}

impl Interpreter {
    /// An interpreter with an empty global scope and no output.
    pub fn new() -> (r: Self)
        ensures
            r.environment.bindings() == Seq::<Binding>::empty(),
            r.environment.marks() == Seq::<usize>::empty(),
            r.output@ == Seq::<String>::empty(),
    {
        Interpreter { environment: Environment::new(), output: Vec::new() }
    }

    fn handle_plus(&self, left: Value, right: Value, line: usize) -> (r: Result<Value, LoxError>)
        ensures
            result_view(r) == binary_result(TokenType::Plus, left@, right@, line),
    {
        match (left, right) {
            (Value::Number(l), Value::Number(r)) => number_result(l.add(&r), line),
            (Value::String(l), Value::String(r)) => {
                let mut s = l;
                s.append(r.as_str());
                Ok(Value::String(s))
            },
            _ => Err(LoxError::new("Operands must be two numbers or two strings.", Some(line))),
        }
    }

    fn handle_minus(&self, left: Value, right: Value, line: usize) -> (r: Result<Value, LoxError>)
        ensures
            result_view(r) == binary_result(TokenType::Minus, left@, right@, line),
    {
        match (left, right) {
            (Value::Number(l), Value::Number(r)) => number_result(l.subtract(&r), line),
            _ => numbers_expected(line),
        }
    }

    fn handle_multiply(&self, left: Value, right: Value, line: usize) -> (r: Result<Value, LoxError>)
        ensures
            result_view(r) == binary_result(TokenType::Star, left@, right@, line),
    {
        match (left, right) {
            (Value::Number(l), Value::Number(r)) => number_result(l.multiply(&r), line),
            _ => numbers_expected(line),
        }
    }

    /// Division; a zero divisor is the error "Division by zero".
    pub fn handle_divide(&self, left: Value, right: Value, line: usize) -> (r: Result<Value, LoxError>)
        ensures
            result_view(r) == binary_result(TokenType::Slash, left@, right@, line),
    {
        match (left, right) {
            (Value::Number(l), Value::Number(r)) => {
                if r.is_zero() {
                    return Err(LoxError::new("Division by zero", Some(line)));
                }
                number_result(l.divide(&r), line)
            },
            _ => numbers_expected(line),
        }
    }

    fn handle_greater(&self, left: Value, right: Value, line: usize) -> (r: Result<Value, LoxError>)
        ensures
            result_view(r) == binary_result(TokenType::Greater, left@, right@, line),
    {
        match (left, right) {
            (Value::Number(l), Value::Number(r)) => Ok(Value::Boolean(r.less(&l))),
            _ => numbers_expected(line),
        }
    }

    fn handle_greater_equal(&self, left: Value, right: Value, line: usize) -> (r: Result<Value, LoxError>)
        ensures
            result_view(r) == binary_result(TokenType::GreaterEqual, left@, right@, line),
    {
        match (left, right) {
            (Value::Number(l), Value::Number(r)) => Ok(Value::Boolean(!l.less(&r))),
            _ => numbers_expected(line),
        }
    }

    fn handle_less(&self, left: Value, right: Value, line: usize) -> (r: Result<Value, LoxError>)
        ensures
            result_view(r) == binary_result(TokenType::Less, left@, right@, line),
    {
        match (left, right) {
            (Value::Number(l), Value::Number(r)) => Ok(Value::Boolean(l.less(&r))),
            _ => numbers_expected(line),
        }
    }

    fn handle_less_equal(&self, left: Value, right: Value, line: usize) -> (r: Result<Value, LoxError>)
        ensures
            result_view(r) == binary_result(TokenType::LessEqual, left@, right@, line),
    {
        match (left, right) {
            (Value::Number(l), Value::Number(r)) => Ok(Value::Boolean(!r.less(&l))),
            _ => numbers_expected(line),
        }
    }

    fn handle_equal_equal(&self, left: Value, right: Value) -> (r: Result<Value, LoxError>)
        ensures
            forall|line: usize| result_view(r) == binary_result(TokenType::EqualEqual, left@, right@, line),
    {
        Ok(Value::Boolean(left.equals(&right)))
    }

    fn handle_bang_equal(&self, left: Value, right: Value) -> (r: Result<Value, LoxError>)
        ensures
            forall|line: usize| result_view(r) == binary_result(TokenType::BangEqual, left@, right@, line),
    {
        Ok(Value::Boolean(!left.equals(&right)))
    }

    /// What the infix operator `operator` yields on two values.
    pub fn handle_binary_op(&self, left: Value, operator: &TokenType, right: Value, line: usize) -> (r: Result<Value, LoxError>)
        ensures
            result_view(r) == binary_result(*operator, left@, right@, line),
    {
        match operator {
            TokenType::Plus => self.handle_plus(left, right, line),
            TokenType::Minus => self.handle_minus(left, right, line),
            TokenType::Slash => self.handle_divide(left, right, line),
            TokenType::Star => self.handle_multiply(left, right, line),
            TokenType::Greater => self.handle_greater(left, right, line),
            TokenType::GreaterEqual => self.handle_greater_equal(left, right, line),
            TokenType::Less => self.handle_less(left, right, line),
            TokenType::LessEqual => self.handle_less_equal(left, right, line),
            TokenType::EqualEqual => self.handle_equal_equal(left, right),
            TokenType::BangEqual => self.handle_bang_equal(left, right),
            _ => Ok(Value::Nil),
        }
    }

    /// Whether a value counts as true.
    pub fn is_truthy(&self, value: &Value) -> (r: bool)
        ensures
            r == truthy(value@),
    {
        value.is_truthy()
    }

    /// Evaluates `expr`; an assignment changes the environment's bindings
    /// as `eval` says, and nothing else changes.
    pub fn evaluate(&mut self, expr: &Expr) -> (r: Result<Value, LoxError>)
        ensures
            (final(self).environment.bindings(), result_view(r)) == eval(*expr, old(self).environment.bindings()),
            final(self).environment.marks() == old(self).environment.marks(),
            final(self).output == old(self).output,
        decreases expr,
    {
        match expr {
            Expr::String(s) => Ok(Value::String(s.clone())),
            Expr::Number(n) => Ok(Value::Number(*n)),
            Expr::Boolean(b) => Ok(Value::Boolean(*b)),
            Expr::Nil => Ok(Value::Nil),
            Expr::Unary { operator, right } => {
                let right_val = self.evaluate(right)?;
                let line = operator.line;
                match operator.token_type {
                    TokenType::Minus => {
                        if let Value::Number(n) = right_val {
                            return number_result(n.negate(), line);
                        }
                        Err(LoxError::new("Operand must be a number.", Some(line)))
                    },
                    TokenType::Bang => Ok(Value::Boolean(!self.is_truthy(&right_val))),
                    _ => Err(LoxError::new("Unknown unary operator", Some(line))),
                }
            },
            Expr::Binary { left, operator, right } => {
                let left_val = self.evaluate(left)?;
                let right_val = self.evaluate(right)?;
                self.handle_binary_op(left_val, &operator.token_type, right_val, operator.line)
            },
            Expr::Grouping(inner) => self.evaluate(inner),
            Expr::Assign { name, value, line } => {
                let v = self.evaluate(value)?;
                let kept = v.duplicate();
                self.environment.assign(name.clone(), v, *line)?;
                Ok(kept)
            },
            Expr::Variable(name) => {
                match self.environment.get(name.as_str()) {
                    Some(v) => Ok(v.duplicate()),
                    None => Err(LoxError::new("Undefined variable", None)),
                }
            },
        }
    }

    /// Runs a program: its statements in order in the current scope, up to
    /// the first runtime error, which is returned.
    pub fn interpret(&mut self, statements: Vec<Stmt>) -> (r: Result<(), LoxError>)
        ensures
            ({
                let s = run_all(stmts_view(statements@), old(self).environment.bindings(), lines_view(old(self).output@));
                &&& final(self).environment.bindings() == s.0
                &&& lines_view(final(self).output@) == s.1
                &&& match r {
                    Ok(_) => s.2 is None,
                    Err(e) => s.2 == Some(error_view(e)),
                }
            }),
            final(self).environment.marks() == old(self).environment.marks(),
    {
        self.execute_all(&statements)
    }

    /// Appends the printed form of `value` to the output.
    pub fn print_value(&mut self, value: Value)
        ensures
            lines_view(final(self).output@) == lines_view(old(self).output@).push(value_text(value@)),
            final(self).environment == old(self).environment,
    {
        let t = value.to_text();
        self.output.push(t);
        assert(lines_view(self.output@) =~= lines_view(old(self).output@).push(value_text(value@)));
    }

    /// Executes one statement as `run` says.
    pub fn execute(&mut self, stmt: &Stmt) -> (r: Result<(), LoxError>)
        ensures
            ({
                let s = run(stmt_view(*stmt), old(self).environment.bindings(), lines_view(old(self).output@));
                &&& final(self).environment.bindings() == s.0
                &&& lines_view(final(self).output@) == s.1
                &&& match r {
                    Ok(_) => s.2 is None,
                    Err(e) => s.2 == Some(error_view(e)),
                }
            }),
            final(self).environment.marks() == old(self).environment.marks(),
        decreases stmt, 2nat,
    {
        match stmt {
            Stmt::Print(expr) => {
                let value = self.evaluate(expr)?;
                self.print_value(value);
            },
            Stmt::Var(name, initializer) => {
                let value = self.evaluate(initializer)?;
                self.environment.define(name.clone(), value);
            },
            Stmt::Expression(expr) => {
                self.evaluate(expr)?;
            },
            Stmt::Block(statements) => self.execute_block(statements)?,
        }
        Ok(())
    }

    /// Executes statements in a new inner scope, which is closed again at the
    /// end, also after an error.
    pub fn execute_block(&mut self, statements: &Vec<Stmt>) -> (r: Result<(), LoxError>)
        ensures
            ({
                let b = old(self).environment.bindings();
                let s = run_all(stmts_view(statements@), b, lines_view(old(self).output@));
                &&& final(self).environment.bindings() == take(s.0, b.len() as int)
                &&& lines_view(final(self).output@) == s.1
                &&& match r {
                    Ok(_) => s.2 is None,
                    Err(e) => s.2 == Some(error_view(e)),
                }
            }),
            final(self).environment.marks() == old(self).environment.marks(),
        decreases statements, 1nat,
    {
        let ghost b0 = self.environment.bindings();
        let ghost m0 = self.environment.marks();
        self.environment.open_scope();
        let r = self.execute_all(statements);
        self.environment.close_scope();
        assert(self.environment.marks() =~= m0);
        r
    }

    /// Executes statements in order in the current scope, up to the first
    /// error.
    fn execute_all(&mut self, statements: &Vec<Stmt>) -> (r: Result<(), LoxError>)
        ensures
            ({
                let s = run_all(stmts_view(statements@), old(self).environment.bindings(), lines_view(old(self).output@));
                &&& final(self).environment.bindings() == s.0
                &&& lines_view(final(self).output@) == s.1
                &&& match r {
                    Ok(_) => s.2 is None,
                    Err(e) => s.2 == Some(error_view(e)),
                }
            }),
            final(self).environment.marks() == old(self).environment.marks(),
        decreases statements, 0nat,
    {
        let ghost whole = run_all(stmts_view(statements@), self.environment.bindings(), lines_view(self.output@));
        let ghost m0 = self.environment.marks();
        let n = statements.len();
        let mut i: usize = 0;
        assert(statements@.subrange(0, n as int) =~= statements@);
        while i < n
            invariant
                n == statements@.len(),
                i <= n,
                self.environment.marks() == m0,
                m0 == old(self).environment.marks(),
                whole == run_all(stmts_view(statements@), old(self).environment.bindings(), lines_view(old(self).output@)),
                whole == run_all(stmts_view(statements@.subrange(i as int, n as int)), self.environment.bindings(), lines_view(self.output@)),
            decreases n - i,
        {
            let ghost rest = statements@.subrange(i as int, n as int);
            assert(rest[0] == statements@[i as int]);
            assert(rest.drop_first() =~= statements@.subrange(i + 1, n as int));
            assert(stmts_view(rest)[0] == stmt_view(rest[0]));
            assert(stmts_view(rest).drop_first() =~= stmts_view(rest.drop_first()));
            match self.execute(&statements[i]) {
                Ok(()) => {},
                Err(e) => {
                    return Err(e);
                },
            }
            i += 1;
        }
        Ok(())
    }
}

/// A block's own declarations do not outlive it: after `var x = e1;` and then
/// a block `{ var x = e2; }`, `x` again holds the value of `e1`. This holds
/// where both initializers evaluate without error and without assigning to
/// any variable (literals, for instance).
pub proof fn lemma_block_shadowing(
    b: Seq<Binding>,
    out: Seq<Seq<char>>,
    name: String,
    outer: Expr,
    inner_name: String,
    inner: Expr,
)
    requires
        inner_name@ == name@,
        eval(outer, b).1 is Ok,
        eval(outer, b).0 == b,
        eval(inner, b.push((name@, eval(outer, b).1->Ok_0))).1 is Ok,
        eval(inner, b.push((name@, eval(outer, b).1->Ok_0))).0 == b.push((name@, eval(outer, b).1->Ok_0)),
    ensures
        ({
            let after_var = run(StmtView::Var(name, outer), b, out);
            let block = StmtView::Block(seq![StmtView::Var(inner_name, inner)]);
            let after_block = run(block, after_var.0, after_var.1);
            &&& after_var.2 is None
            &&& after_block.2 is None
            &&& after_block.0 == after_var.0
            &&& lookup(after_block.0, name@) == Some(eval(outer, b).1->Ok_0)
        }),
{
    let after_var = run(StmtView::Var(name, outer), b, out);
    let b1 = after_var.0;
    let items = seq![StmtView::Var(inner_name, inner)];
    let inner_run = run(StmtView::Var(inner_name, inner), b1, after_var.1);
    assert(items.drop_first() =~= Seq::<StmtView>::empty());
    assert(run_all(items, b1, after_var.1) == run_all(items.drop_first(), inner_run.0, inner_run.1));
    assert(inner_run.0 == b1.push((name@, eval(inner, b1).1->Ok_0)));
    assert(take(inner_run.0, b1.len() as int) =~= b1);
}

/// Dividing by zero never yields a number: a number divided by zero is the
/// error "Division by zero", and any other dividend is an operand error.
pub proof fn lemma_divide_by_zero(left: ValueView, zero: Number, line: usize)
    requires
        is_zero(zero),
    ensures
        binary_result(TokenType::Slash, left, ValueView::Num(zero), line) is Err,
        left is Num ==> binary_result(TokenType::Slash, left, ValueView::Num(zero), line) == failure(
            "Division by zero"@,
            line,
        ),
{
}

pub open spec fn same_names(b1: Seq<Binding>, b2: Seq<Binding>) -> bool {
    b1.len() == b2.len() && forall|i: int| 0 <= i < b1.len() ==> #[trigger] b1[i].0 == b2[i].0
}

proof fn lemma_same_names_find(b1: Seq<Binding>, b2: Seq<Binding>, name: Seq<char>)
    requires
        same_names(b1, b2),
    ensures
        find(b1, name) == find(b2, name),
    decreases b1.len(),
{
    if b1.len() > 0 {
        assert(b1.last().0 == b2.last().0);
        assert(same_names(b1.drop_last(), b2.drop_last())) by {
            assert forall|i: int| 0 <= i < b1.drop_last().len() implies #[trigger] b1.drop_last()[i].0 == b2.drop_last()[i].0 by {
                assert(b1[i].0 == b2[i].0);
            }
        }
        lemma_same_names_find(b1.drop_last(), b2.drop_last(), name);
    }
}

/// Evaluating an expression never adds or removes a binding, nor renames one.
pub proof fn lemma_eval_keeps_names(e: Expr, b: Seq<Binding>)
    ensures
        same_names(eval(e, b).0, b),
    decreases e,
{
    match e {
        Expr::Unary { operator, right } => {
            lemma_eval_keeps_names(*right, b);
        },
        Expr::Binary { left, operator, right } => {
            lemma_eval_keeps_names(*left, b);
            let b1 = eval(*left, b).0;
            lemma_eval_keeps_names(*right, b1);
        },
        Expr::Grouping(inner) => {
            lemma_eval_keeps_names(*inner, b);
        },
        Expr::Assign { name, value, line } => {
            lemma_eval_keeps_names(*value, b);
            let (b1, r) = eval(*value, b);
            if r is Ok {
                lemma_find(b1, name@);
                if let Some(b2) = assigned(b1, name@, r->Ok_0) {
                    assert(same_names(b2, b1));
                }
            }
        },
        _ => {},
    }
}

/// Assigning to a name that no scope binds fails with "Undefined variable"
/// (unless the assigned expression fails first), and the name is still bound
/// nowhere afterwards.
pub proof fn lemma_assign_undeclared(b: Seq<Binding>, name: String, value: Box<Expr>, line: usize)
    requires
        lookup(b, name@) is None,
    ensures
        ({
            let (b2, r) = eval(Expr::Assign { name, value, line }, b);
            &&& r is Err
            &&& lookup(b2, name@) is None
            &&& eval(*value, b).1 is Ok ==> r == failure("Undefined variable"@, line)
        }),
{
    let (b1, r) = eval(*value, b);
    lemma_eval_keeps_names(*value, b);
    lemma_find(b, name@);
    lemma_find(b1, name@);
    lemma_same_names_find(b1, b, name@);
}

} // verus!
