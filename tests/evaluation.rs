use lox::ast::{Expr, Stmt};
use lox::environment::Environment;
use lox::error::LoxError;
use lox::interpreter::Interpreter;
use lox::number::Number;
use lox::parser::Parser;
use lox::scanner::Scanner;
use lox::value::Value;

fn parse(src: &str, strict: bool) -> Result<Vec<Stmt>, LoxError> {
    let mut scanner = Scanner::new(src.to_string());
    let tokens = scanner.scan_tokens();
    assert!(!scanner.has_error());
    Parser::new(tokens, strict).parse()
}

fn expression(src: &str) -> Expr {
    let mut statements = parse(src, false).unwrap();
    assert_eq!(statements.len(), 1);
    match statements.remove(0) {
        Stmt::Expression(e) => e,
        other => panic!("not an expression: {:?}", other),
    }
}

fn evaluate(src: &str) -> Result<Value, LoxError> {
    let e = expression(src);
    Interpreter::new().evaluate(&e)
}

fn text(v: &Value) -> String {
    v.to_text()
}

fn run(src: &str) -> (Interpreter, Result<(), LoxError>) {
    let statements = parse(src, true).unwrap();
    let mut interpreter = Interpreter::new();
    let r = interpreter.interpret(statements);
    (interpreter, r)
}

#[test]
fn precedence_tree_and_value() {
    let e = expression("1 + 2 * 3");
    assert_eq!(e.to_text(), "(+ 1.0 (* 2.0 3.0))");
    let v = Interpreter::new().evaluate(&e).unwrap();
    assert!(v.equals(&Value::Number(Number::from_int(7))));
}

#[test]
fn grouping_and_unary_forms() {
    assert_eq!(expression("-(1 - 2) == !true").to_text(), "(== (- (group (- 1.0 2.0))) (! true))");
    assert_eq!(expression("1 - 2 - 3").to_text(), "(- (- 1.0 2.0) 3.0)");
    assert_eq!(expression("\"foo\" + \"hello\"").to_text(), "(+ foo hello)");
}

#[test]
fn string_concatenation() {
    assert_eq!(text(&evaluate("\"a\" + \"b\"").unwrap()), "ab");
}

#[test]
fn mixed_plus_is_an_error() {
    let e = evaluate("\"a\" + 1").unwrap_err();
    assert_eq!(e.message, "Operands must be two numbers or two strings.");
    assert_eq!(e.line, Some(1));
}

#[test]
fn sequential_statements_update_a_variable() {
    let mut statements = parse("var x = 10; x = x + 5; x", false).unwrap();
    assert_eq!(statements.len(), 3);
    let last = statements.pop().unwrap();
    let mut interpreter = Interpreter::new();
    interpreter.interpret(statements).unwrap();
    match last {
        Stmt::Expression(e) => {
            let v = interpreter.evaluate(&e).unwrap();
            assert_eq!(text(&v), "15.0");
        }
        other => panic!("unexpected {:?}", other),
    }
}

#[test]
fn division_by_zero_is_an_error() {
    let e = evaluate("8 / 0").unwrap_err();
    assert_eq!(e.message, "Division by zero");
    let e = evaluate("8 / (1 - 1)").unwrap_err();
    assert_eq!(e.message, "Division by zero");
    assert_eq!(text(&evaluate("9 / 2").unwrap()), "4.5");
}

#[test]
fn numeric_operators_need_numbers() {
    assert_eq!(evaluate("1 - \"a\"").unwrap_err().message, "Operands must be numbers.");
    assert_eq!(evaluate("\"a\" < 1").unwrap_err().message, "Operands must be numbers.");
    assert_eq!(evaluate("-\"a\"").unwrap_err().message, "Operand must be a number.");
}

#[test]
fn comparisons_and_equality() {
    assert_eq!(text(&evaluate("1 < 2").unwrap()), "true");
    assert_eq!(text(&evaluate("2 <= 2").unwrap()), "true");
    assert_eq!(text(&evaluate("1 > 2").unwrap()), "false");
    assert_eq!(text(&evaluate("3 >= 4").unwrap()), "false");
    assert_eq!(text(&evaluate("1 == \"1\"").unwrap()), "false");
    assert_eq!(text(&evaluate("1.50 == 1.5").unwrap()), "true");
    assert_eq!(text(&evaluate("nil != false").unwrap()), "true");
    assert_eq!(text(&evaluate("13.2 * 2").unwrap()), "26.4");
}

#[test]
fn truthiness() {
    assert_eq!(text(&evaluate("!nil").unwrap()), "true");
    assert_eq!(text(&evaluate("!0").unwrap()), "false");
    assert_eq!(text(&evaluate("!\"\"").unwrap()), "false");
    assert_eq!(text(&evaluate("!!false").unwrap()), "false");
}

#[test]
fn shadowed_variable_is_restored_after_block() {
    let (interpreter, r) = run("var x = 1; { var x = 2; print x; } print x;");
    r.unwrap();
    let out: Vec<String> = interpreter.output.clone();
    assert_eq!(out, vec!["2.0".to_string(), "1.0".to_string()]);
    assert_eq!(text(interpreter.environment.get("x").unwrap()), "1.0");
}

#[test]
fn block_assignment_reaches_outer_scope() {
    let (interpreter, r) = run("var x = 1; { x = 3; } print x;");
    r.unwrap();
    assert_eq!(interpreter.output, vec!["3.0".to_string()]);
}

#[test]
fn assignment_to_undeclared_name_fails() {
    let (interpreter, r) = run("y = 1;");
    let e = r.unwrap_err();
    assert_eq!(e.message, "Undefined variable");
    assert!(interpreter.environment.get("y").is_none());
}

#[test]
fn undefined_variable_read_fails() {
    assert_eq!(evaluate("nope").unwrap_err().message, "Undefined variable");
}

#[test]
fn assignment_yields_its_value() {
    let (interpreter, r) = run("var a = 1; print a = 5;");
    r.unwrap();
    assert_eq!(interpreter.output, vec!["5.0".to_string()]);
}

#[test]
fn error_stops_the_program() {
    let (interpreter, r) = run("print 1; print 1 / 0; print 2;");
    assert_eq!(r.unwrap_err().message, "Division by zero");
    assert_eq!(interpreter.output, vec!["1.0".to_string()]);
}

#[test]
fn environment_scopes() {
    let mut env = Environment::new();
    env.define("a".to_string(), Value::Boolean(true));
    let mut env = Environment::with_parent(env);
    env.define("a".to_string(), Value::Nil);
    assert_eq!(text(env.get("a").unwrap()), "nil");
    env.assign("a".to_string(), Value::String("s".to_string()), 3).unwrap();
    assert_eq!(text(env.get("a").unwrap()), "s");
    env.close_scope();
    assert_eq!(text(env.get("a").unwrap()), "true");
    let e = env.assign("b".to_string(), Value::Nil, 4).unwrap_err();
    assert_eq!(e.message, "Undefined variable");
    assert_eq!(e.line, Some(4));
    assert!(env.get("b").is_none());
}
