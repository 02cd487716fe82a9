//! The four ways to run a source text: list its tokens, show its parsed
//! statements, evaluate its expression statements, or run it as a program.
//! Each yields what to print on standard output and standard error and the
//! exit status; printing and exiting is the caller's part.
use vstd::prelude::*;
use crate::ast::{expr_text, stmt_view, stmts_view, Stmt, StmtView};
use crate::error::{ExitCode, LoxError};
use crate::interpreter::{eval, lines_view, run_all, Interpreter};
use crate::environment::Binding;
use crate::number::{format_tokenized_number, lexeme_text};
use crate::parser::{parse_program, Parser};
use crate::scanner::{error_view, lex, lex_errors, token_view, token_views, ErrorView, Scanner, TokenView};
use crate::text::decimal;
use crate::token::{listed_name, Token, TokenType};
use crate::value::value_text;

verus! {

/// What a command prints and the status it exits with.
#[derive(Debug)]
pub struct Report {
    pub stdout: Vec<String>,
    pub stderr: Vec<String>,
    pub exit_code: ExitCode,
}

/// A way of running a source text.
pub trait Command {
    fn execute(&self) -> Report;
}

/// The line an error is reported on standard error with.
pub open spec fn error_line(e: ErrorView) -> Seq<char> {
    match e.1 {
        Some(n) => "[line "@ + decimal(n as nat) + "] Error: "@ + e.0,
        None => "Error: "@ + e.0,
    }
}

pub open spec fn error_lines(es: Seq<ErrorView>) -> Seq<Seq<char>> {
    es.map_values(|e: ErrorView| error_line(e))
}

/// How a token is listed: kind, lexeme (a string's in quotes), and literal
/// (a number's as the number it denotes, `null` where there is none).
pub open spec fn token_line(t: TokenView) -> Seq<char> {
    listed_name(t.0) + " "@ + (if t.0 == TokenType::String { "\""@ + t.1 + "\""@ } else { t.1 }) + " "@
        + match t.2 {
        Some(v) => if t.0 == TokenType::Number { lexeme_text(v) } else { v },
        None => "null"@,
    }
}

fn render_error(e: &LoxError) -> (r: String)
    ensures
        r@ == error_line(error_view(*e)),
{
    e.render()
}

/// Appends the report lines of `errors` to `out`.
fn push_errors(errors: &Vec<LoxError>, out: &mut Vec<String>)
    ensures
        lines_view(final(out)@) == lines_view(old(out)@) + error_lines(errors@.map_values(|e: LoxError| error_view(e))),
{
    let ghost es = errors@.map_values(|e: LoxError| error_view(e));
    let mut i: usize = 0;
    while i < errors.len()
        invariant
            i <= errors@.len(),
            es == errors@.map_values(|e: LoxError| error_view(e)),
            lines_view(out@) == lines_view(old(out)@) + error_lines(es.subrange(0, i as int)),
        decreases errors@.len() - i,
    {
        let line = render_error(&errors[i]);
        let ghost before = out@;
        out.push(line);
        assert(lines_view(out@) =~= lines_view(before).push(line@));
        assert(error_lines(es.subrange(0, i + 1)) =~= error_lines(es.subrange(0, i as int)).push(error_line(es[i as int])));
        assert(lines_view(out@) =~= lines_view(old(out)@) + error_lines(es.subrange(0, i + 1)));
        i += 1;
    }
    assert(es.subrange(0, i as int) =~= es);
}

/// The listing line of one token.
pub fn token_text(t: &Token) -> (r: String)
    ensures
        r@ == token_line(token_view(*t)),
{
    let mut out = String::from_str(t.token_type.listed());
    out.append(" ");
    if t.token_type == TokenType::String {
        out.append("\"");
        out.append(t.lexeme.as_str());
        out.append("\"");
    } else {
        out.append(t.lexeme.as_str());
    }
    out.append(" ");
    match &t.literal {
        Some(v) => {
            if t.token_type == TokenType::Number {
                let f = format_tokenized_number(v.as_str());
                out.append(f.as_str());
            } else {
                out.append(v.as_str());
            }
        },
        None => out.append("null"),
    }
    out
}

/// Lists the tokens of a source text.
pub struct TokenizeCommand {
    file_contents: String,
}

impl TokenizeCommand {
    pub closed spec fn source(&self) -> Seq<char> {
        self.file_contents@
    }

    pub fn new(file_contents: String) -> (r: Self)
        ensures
            r.source() == file_contents@,
    {
        Self { file_contents }
    }

    /// One line per token of `lex`, each lexical error on standard error,
    /// and status 65 where there was one, else 0.
    pub fn run(&self) -> (r: Report)
        requires
            self.source().len() < usize::MAX,
        ensures
            lines_view(r.stdout@) == lex(self.source()).map_values(|t: TokenView| token_line(t)),
            lines_view(r.stderr@) == error_lines(lex_errors(self.source())),
            r.exit_code.0 == if lex_errors(self.source()).len() > 0 { 65i32 } else { 0i32 },
    {
        let mut scanner = Scanner::new(self.file_contents.clone());
        let tokens = scanner.scan_tokens();
        let ghost tv = token_views(tokens@);
        let mut stdout: Vec<String> = Vec::new();
        let mut i: usize = 0;
        while i < tokens.len()
            invariant
                i <= tokens@.len(),
                tv == token_views(tokens@),
                lines_view(stdout@) == tv.subrange(0, i as int).map_values(|t: TokenView| token_line(t)),
            decreases tokens@.len() - i,
        {
            let line = token_text(&tokens[i]);
            let ghost before = stdout@;
            stdout.push(line);
            assert(lines_view(stdout@) =~= lines_view(before).push(line@));
            assert(tv[i as int] == token_view(tokens@[i as int]));
            assert(lines_view(stdout@) =~= tv.subrange(0, i + 1).map_values(|t: TokenView| token_line(t)));
            i += 1;
        }
        assert(tv.subrange(0, i as int) =~= tv);
        let mut stderr: Vec<String> = Vec::new();
        push_errors(scanner.errors(), &mut stderr);
        assert(lines_view(stderr@) =~= error_lines(lex_errors(self.source())));
        let code = if scanner.has_error() { 65 } else { 0 };
        Report { stdout, stderr, exit_code: ExitCode::new(code) }
    }
}

impl Command for TokenizeCommand {
    fn execute(&self) -> Report {
        // No text this long fits in memory; the check keeps `run`'s
        // line counter in range.
        if self.file_contents.as_str().unicode_len() == usize::MAX {
            return Report { stdout: Vec::new(), stderr: Vec::new(), exit_code: ExitCode::new(65) };
        }
        self.run()
    }
}

/// How a parsed statement is shown: its expression in canonical form, after
/// `Print: ` or `Var: <name> `; a block as `Block` and then its statements.
pub open spec fn stmt_lines(s: StmtView) -> Seq<Seq<char>>
    decreases s,
{
    match s {
        StmtView::Expression(e) => seq![expr_text(e)],
        StmtView::Print(e) => seq!["Print: "@ + expr_text(e)],
        StmtView::Var(name, e) => seq!["Var: "@ + name@ + " "@ + expr_text(e)],
        StmtView::Block(items) => seq!["Block"@] + all_lines(items),
    }
}

pub open spec fn all_lines(ss: Seq<StmtView>) -> Seq<Seq<char>>
    decreases ss,
{
    if ss.len() == 0 {
        Seq::empty()
    } else {
        stmt_lines(ss[0]) + all_lines(ss.drop_first())
    }
}

/// Appends the lines that show `stmt` to `out`.
fn handle_statement(stmt: &Stmt, out: &mut Vec<String>)
    ensures
        lines_view(final(out)@) == lines_view(old(out)@) + stmt_lines(stmt_view(*stmt)),
    decreases stmt, 1nat,
{
    let ghost before = out@;
    match stmt {
        Stmt::Expression(expr) => {
            out.push(expr.to_text());
        },
        Stmt::Print(expr) => {
            let mut line = String::from_str("Print: ");
            let t = expr.to_text();
            line.append(t.as_str());
            out.push(line);
        },
        Stmt::Var(name, expr) => {
            let mut line = String::from_str("Var: ");
            line.append(name.as_str());
            line.append(" ");
            let t = expr.to_text();
            line.append(t.as_str());
            out.push(line);
        },
        Stmt::Block(items) => {
            out.push(String::from_str("Block"));
            assert(lines_view(out@) =~= lines_view(before) + seq!["Block"@]);
            handle_statements(items, out);
            assert(lines_view(before) + seq!["Block"@] + all_lines(stmts_view(items@)) =~= lines_view(before) + stmt_lines(stmt_view(*stmt)));
        },
    }
    proof {
        if !(stmt is Block) {
            assert(lines_view(out@) =~= lines_view(before) + stmt_lines(stmt_view(*stmt)));
        }
    }
}

fn handle_statements(items: &Vec<Stmt>, out: &mut Vec<String>)
    ensures
        lines_view(final(out)@) == lines_view(old(out)@) + all_lines(stmts_view(items@)),
    decreases items, 0nat,
{
    let n = items.len();
    let mut i: usize = 0;
    assert(items@.subrange(0, n as int) =~= items@);
    assert(lines_view(out@) + Seq::<Seq<char>>::empty() =~= lines_view(out@));
    while i < n
        invariant
            n == items@.len(),
            i <= n,
            lines_view(old(out)@) + all_lines(stmts_view(items@)) == lines_view(out@) + all_lines(stmts_view(items@.subrange(i as int, n as int))),
        decreases n - i,
    {
        let ghost rest = items@.subrange(i as int, n as int);
        assert(rest[0] == items@[i as int]);
        assert(rest.drop_first() =~= items@.subrange(i + 1, n as int));
        assert(stmts_view(rest)[0] == stmt_view(rest[0]));
        assert(stmts_view(rest).drop_first() =~= stmts_view(rest.drop_first()));
        let ghost before = out@;
        handle_statement(&items[i], out);
        assert(lines_view(before) + all_lines(stmts_view(rest)) =~= lines_view(out@) + all_lines(stmts_view(items@.subrange(i + 1, n as int))));
        i += 1;
    }
    assert(items@.subrange(n as int, n as int) =~= Seq::<Stmt>::empty());
    assert(lines_view(out@) + all_lines(stmts_view(Seq::<Stmt>::empty())) =~= lines_view(out@));
}

/// Scans `source`; the tokens, or the report of the lexical errors.
fn scan_or_report(source: &String) -> (r: Result<Vec<Token>, Report>)
    requires
        source@.len() < usize::MAX,
    ensures
        match r {
            Ok(tokens) => lex_errors(source@).len() == 0 && token_views(tokens@) == lex(source@)
                && crate::parser::well_ended(tokens@),
            Err(report) => lex_errors(source@).len() > 0 && lines_view(report.stdout@) == Seq::<Seq<char>>::empty()
                && lines_view(report.stderr@) == error_lines(lex_errors(source@)) && report.exit_code.0 == 65,
        },
{
    let mut scanner = Scanner::new(source.clone());
    let tokens = scanner.scan_tokens();
    if scanner.has_error() {
        let mut stderr: Vec<String> = Vec::new();
        push_errors(scanner.errors(), &mut stderr);
        assert(lines_view(stderr@) =~= error_lines(lex_errors(source@)));
        let stdout: Vec<String> = Vec::new();
        assert(lines_view(stdout@) =~= Seq::<Seq<char>>::empty());
        return Err(Report { stdout, stderr, exit_code: ExitCode::new(65) });
    }
    let n = tokens.len(); // a Vec length: bounds the positions the parser uses
    Ok(tokens)
}

fn one_error_report(e: &LoxError, code: i32, stdout: Vec<String>) -> (r: Report)
    ensures
        r.stdout == stdout,
        lines_view(r.stderr@) == seq![error_line(error_view(*e))],
        r.exit_code.0 == code,
{
    let mut stderr: Vec<String> = Vec::new();
    stderr.push(render_error(e));
    assert(lines_view(stderr@) =~= seq![error_line(error_view(*e))]);
    Report { stdout, stderr, exit_code: ExitCode::new(code) }
}

/// What the parse command reports for the tokens `toks`.
pub open spec fn parse_report(toks: Seq<Token>, out: Seq<Seq<char>>, err: Seq<Seq<char>>, code: i32) -> bool {
    match parse_program(toks, 0, false) {
        Ok(ss) => out == all_lines(ss) && err == Seq::<Seq<char>>::empty() && code == 0,
        Err(x) => out == Seq::<Seq<char>>::empty() && err == seq![error_line(x)] && code == 65,
    }
}

/// Shows the statements a source text parses to.
pub struct ParseCommand {
    file_contents: String,
}

impl ParseCommand {
    pub closed spec fn source(&self) -> Seq<char> {
        self.file_contents@
    }

    pub fn new(file_contents: String) -> (r: Self)
        ensures
            r.source() == file_contents@,
    {
        Self { file_contents }
    }

    /// Lexical errors end it with status 65; else the statements parsed
    /// leniently are shown, or the syntax error is reported with status 65.
    pub fn run(&self) -> (r: Report)
        requires
            self.source().len() < usize::MAX,
        ensures
            lex_errors(self.source()).len() > 0 ==> lines_view(r.stdout@) == Seq::<Seq<char>>::empty()
                && lines_view(r.stderr@) == error_lines(lex_errors(self.source())) && r.exit_code.0 == 65,
            lex_errors(self.source()).len() == 0 ==> exists|toks: Seq<Token>|
                token_views(toks) == lex(self.source())
                && #[trigger] parse_report(toks, lines_view(r.stdout@), lines_view(r.stderr@), r.exit_code.0),
    {
        let tokens = match scan_or_report(&self.file_contents) {
            Ok(t) => t,
            Err(report) => {
                return report;
            },
        };
        let ghost toks = tokens@;
        let mut parser = Parser::new(tokens, false);
        match parser.parse() {
            Ok(statements) => {
                let mut stdout: Vec<String> = Vec::new();
                handle_statements(&statements, &mut stdout);
                assert(lines_view(stdout@) =~= all_lines(stmts_view(statements@)));
                let stderr: Vec<String> = Vec::new();
                assert(lines_view(stderr@) =~= Seq::<Seq<char>>::empty());
                let r = Report { stdout, stderr, exit_code: ExitCode::new(0) };
                assert(parse_report(toks, lines_view(r.stdout@), lines_view(r.stderr@), r.exit_code.0));
                r
            },
            Err(e) => {
                let stdout: Vec<String> = Vec::new();
                assert(lines_view(stdout@) =~= Seq::<Seq<char>>::empty());
                let r = one_error_report(&e, 65, stdout);
                assert(parse_report(toks, lines_view(r.stdout@), lines_view(r.stderr@), r.exit_code.0));
                r
            },
        }
    }
}

impl Command for ParseCommand {
    fn execute(&self) -> Report {
        // No text this long fits in memory; see `TokenizeCommand`.
        if self.file_contents.as_str().unicode_len() == usize::MAX {
            return Report { stdout: Vec::new(), stderr: Vec::new(), exit_code: ExitCode::new(65) };
        }
        self.run()
    }
}

/// The expression statements among `ss`, evaluated in order from bindings
/// `b`: the printed value of each, up to the first error, which stops it.
/// Other statements are passed over.
pub open spec fn evaluate_all(ss: Seq<StmtView>, b: Seq<Binding>) -> (Seq<Seq<char>>, Option<ErrorView>)
    decreases ss.len(),
{
    if ss.len() == 0 {
        (Seq::empty(), None)
    } else {
        match ss[0] {
            StmtView::Expression(e) => {
                let (b1, r) = eval(e, b);
                match r {
                    Ok(v) => {
                        let rest = evaluate_all(ss.drop_first(), b1);
                        (seq![value_text(v)] + rest.0, rest.1)
                    },
                    Err(x) => (Seq::empty(), Some(x)),
                }
            },
            _ => evaluate_all(ss.drop_first(), b),
        }
    }
}

/// What the evaluate command reports for the tokens `toks`.
pub open spec fn evaluate_report(toks: Seq<Token>, out: Seq<Seq<char>>, err: Seq<Seq<char>>, code: i32) -> bool {
    match parse_program(toks, 0, false) {
        Ok(ss) => {
            let (o, e) = evaluate_all(ss, Seq::empty());
            &&& out == o
            &&& match e {
                Some(x) => err == seq![error_line(x)] && code == 70,
                None => err == Seq::<Seq<char>>::empty() && code == 0,
            }
        },
        Err(x) => out == Seq::<Seq<char>>::empty() && err == seq![error_line(x)] && code == 65,
    }
}

/// What the run command reports for the tokens `toks`.
pub open spec fn run_report(toks: Seq<Token>, out: Seq<Seq<char>>, err: Seq<Seq<char>>, code: i32) -> bool {
    match parse_program(toks, 0, true) {
        Ok(ss) => {
            let s = run_all(ss, Seq::empty(), Seq::empty());
            &&& out == s.1
            &&& match s.2 {
                Some(x) => err == seq![error_line(x)] && code == 70,
                None => err == Seq::<Seq<char>>::empty() && code == 0,
            }
        },
        Err(x) => out == Seq::<Seq<char>>::empty() && err == seq![error_line(x)] && code == 65,
    }
}

/// Evaluates the expression statements of a source text.
pub struct EvaluateCommand {
    file_contents: String,
}

impl EvaluateCommand {
    pub closed spec fn source(&self) -> Seq<char> {
        self.file_contents@
    }

    pub fn new(file_contents: String) -> (r: Self)
        ensures
            r.source() == file_contents@,
    {
        Self { file_contents }
    }

    /// Lexical and syntax errors end it with status 65; else the value of
    /// each expression statement is printed, and a runtime error ends it
    /// with status 70.
    pub fn run(&self) -> (r: Report)
        requires
            self.source().len() < usize::MAX,
        ensures
            lex_errors(self.source()).len() > 0 ==> lines_view(r.stdout@) == Seq::<Seq<char>>::empty()
                && lines_view(r.stderr@) == error_lines(lex_errors(self.source())) && r.exit_code.0 == 65,
            lex_errors(self.source()).len() == 0 ==> exists|toks: Seq<Token>|
                token_views(toks) == lex(self.source())
                && #[trigger] evaluate_report(toks, lines_view(r.stdout@), lines_view(r.stderr@), r.exit_code.0),
    {
        let tokens = match scan_or_report(&self.file_contents) {
            Ok(t) => t,
            Err(report) => {
                return report;
            },
        };
        let ghost toks = tokens@;
        let mut parser = Parser::new(tokens, false);
        let statements = match parser.parse() {
            Ok(s) => s,
            Err(e) => {
                let stdout: Vec<String> = Vec::new();
                assert(lines_view(stdout@) =~= Seq::<Seq<char>>::empty());
                let r = one_error_report(&e, 65, stdout);
                assert(evaluate_report(toks, lines_view(r.stdout@), lines_view(r.stderr@), r.exit_code.0));
                return r;
            },
        };
        let ghost whole = evaluate_all(stmts_view(statements@), Seq::empty());
        let mut interpreter = Interpreter::new();
        let mut stdout: Vec<String> = Vec::new();
        let n = statements.len();
        let mut i: usize = 0;
        assert(statements@.subrange(0, n as int) =~= statements@);
        assert(lines_view(stdout@) + whole.0 =~= whole.0);
        while i < n
            invariant
                n == statements@.len(),
                i <= n,
                whole == evaluate_all(stmts_view(statements@), Seq::empty()),
                parse_program(toks, 0, false) == Ok::<Seq<StmtView>, ErrorView>(stmts_view(statements@)),
                lex_errors(self.source()).len() == 0,
                token_views(toks) == lex(self.source()),
                ({
                    let rest = evaluate_all(stmts_view(statements@.subrange(i as int, n as int)), interpreter.environment.bindings());
                    whole.0 == lines_view(stdout@) + rest.0 && whole.1 == rest.1
                }),
            decreases n - i,
        {
            let ghost rest = statements@.subrange(i as int, n as int);
            assert(rest[0] == statements@[i as int]);
            assert(rest.drop_first() =~= statements@.subrange(i + 1, n as int));
            assert(stmts_view(rest)[0] == stmt_view(rest[0]));
            assert(stmts_view(rest).drop_first() =~= stmts_view(rest.drop_first()));
            if let Stmt::Expression(expr) = &statements[i] {
                match interpreter.evaluate(expr) {
                    Ok(value) => {
                        let ghost before = stdout@;
                        let text = value.to_text();
                        stdout.push(text);
                        proof {
                            assert(lines_view(stdout@) =~= lines_view(before).push(text@));
                            let more = evaluate_all(stmts_view(statements@.subrange(i + 1, n as int)), interpreter.environment.bindings());
                            assert(lines_view(before) + (seq![text@] + more.0) =~= lines_view(stdout@) + more.0);
                        }
                    },
                    Err(e) => {
                        assert(lines_view(stdout@) + Seq::<Seq<char>>::empty() =~= lines_view(stdout@));
                        let r = one_error_report(&e, 70, stdout);
                        assert(evaluate_report(toks, lines_view(r.stdout@), lines_view(r.stderr@), r.exit_code.0));
                        return r;
                    },
                }
            }
            i += 1;
        }
        assert(statements@.subrange(n as int, n as int) =~= Seq::<Stmt>::empty());
        assert(stmts_view(Seq::<Stmt>::empty()) =~= Seq::<StmtView>::empty());
        assert(lines_view(stdout@) + Seq::<Seq<char>>::empty() =~= lines_view(stdout@));
        let stderr: Vec<String> = Vec::new();
        assert(lines_view(stderr@) =~= Seq::<Seq<char>>::empty());
        let r = Report { stdout, stderr, exit_code: ExitCode::new(0) };
        assert(evaluate_report(toks, lines_view(r.stdout@), lines_view(r.stderr@), r.exit_code.0));
        r
    }
}

impl Command for EvaluateCommand {
    fn execute(&self) -> Report {
        // No text this long fits in memory; see `TokenizeCommand`.
        if self.file_contents.as_str().unicode_len() == usize::MAX {
            return Report { stdout: Vec::new(), stderr: Vec::new(), exit_code: ExitCode::new(65) };
        }
        self.run()
    }
}

/// Runs a source text as a program.
pub struct RunCommand {
    file_contents: String,
}

impl RunCommand {
    pub closed spec fn source(&self) -> Seq<char> {
        self.file_contents@
    }

    pub fn new(file_contents: String) -> (r: Self)
        ensures
            r.source() == file_contents@,
    {
        Self { file_contents }
    }

    /// Lexical and syntax errors (parsed strictly) end it with status 65;
    /// else the program runs, printing what it prints, and a runtime error
    /// ends it with status 70.
    pub fn run(&self) -> (r: Report)
        requires
            self.source().len() < usize::MAX,
        ensures
            lex_errors(self.source()).len() > 0 ==> lines_view(r.stdout@) == Seq::<Seq<char>>::empty()
                && lines_view(r.stderr@) == error_lines(lex_errors(self.source())) && r.exit_code.0 == 65,
            lex_errors(self.source()).len() == 0 ==> exists|toks: Seq<Token>|
                token_views(toks) == lex(self.source())
                && #[trigger] run_report(toks, lines_view(r.stdout@), lines_view(r.stderr@), r.exit_code.0),
    {
        let tokens = match scan_or_report(&self.file_contents) {
            Ok(t) => t,
            Err(report) => {
                return report;
            },
        };
        let ghost toks = tokens@;
        let mut parser = Parser::new(tokens, true);
        match parser.parse() {
            Ok(statements) => {
                let mut interpreter = Interpreter::new();
                assert(lines_view(interpreter.output@) =~= Seq::<Seq<char>>::empty());
                match interpreter.interpret(statements) {
                    Ok(()) => {
                        let stderr: Vec<String> = Vec::new();
                        assert(lines_view(stderr@) =~= Seq::<Seq<char>>::empty());
                        let r = Report { stdout: interpreter.output, stderr, exit_code: ExitCode::new(0) };
                        assert(run_report(toks, lines_view(r.stdout@), lines_view(r.stderr@), r.exit_code.0));
                        r
                    },
                    Err(e) => {
                        let r = one_error_report(&e, 70, interpreter.output);
                        assert(run_report(toks, lines_view(r.stdout@), lines_view(r.stderr@), r.exit_code.0));
                        r
                    },
                }
            },
            Err(e) => {
                let stdout: Vec<String> = Vec::new();
                assert(lines_view(stdout@) =~= Seq::<Seq<char>>::empty());
                let r = one_error_report(&e, 65, stdout);
                assert(run_report(toks, lines_view(r.stdout@), lines_view(r.stderr@), r.exit_code.0));
                r
            },
        }
    }
}

impl Command for RunCommand {
    fn execute(&self) -> Report {
        // No text this long fits in memory; see `TokenizeCommand`.
        if self.file_contents.as_str().unicode_len() == usize::MAX {
            return Report { stdout: Vec::new(), stderr: Vec::new(), exit_code: ExitCode::new(65) };
        }
        self.run()
    }
}

} // verus!
