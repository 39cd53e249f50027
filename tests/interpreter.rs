use rlox::ast::{Stmt, Value};
use rlox::interpreter::{Interpreter, Step};
use rlox::parser::Parser;
use rlox::scanner::Scanner;
use rlox::token::{TokenInfo, TokenType};

fn tokens(src: &str) -> Vec<TokenInfo> {
    let mut sc = Scanner::new(&src.to_string());
    sc.scan_tokens().expect("the source scans");
    let mut toks = sc.tokens;
    for t in toks.iter_mut() {
        if t.token_type == TokenType::Number {
            t.number = Some(t.lexeme.parse::<f64>().unwrap().to_bits());
        }
    }
    toks
}

fn show(v: &Value) -> String {
    match v.display() {
        Some(t) => t,
        None => match v {
            Value::Number(b) => format!("{}", f64::from_bits(*b)),
            _ => unreachable!(),
        },
    }
}

/// Runs the machine to its end; counts the arithmetic it asked for.
fn drive(it: &mut Interpreter, out: &mut Vec<String>, arithmetic: &mut usize) -> Result<Option<Value>, String> {
    loop {
        match it.step() {
            Step::Continue => {}
            Step::Print(v) => out.push(show(&v)),
            Step::Arithmetic { operator, left, right } => {
                *arithmetic += 1;
                let (a, b) = (f64::from_bits(left), f64::from_bits(right));
                let r = match operator {
                    TokenType::Plus => a + b,
                    TokenType::Minus => a - b,
                    TokenType::Star => a * b,
                    TokenType::Slash => a / b,
                    other => panic!("not arithmetic: {:?}", other),
                };
                it.resume(r.to_bits());
            }
            Step::Done(v) => return Ok(v),
            Step::Failed(m) => return Err(m),
        }
    }
}

fn run_on(it: &mut Interpreter, src: &str) -> (Vec<String>, Result<(), String>) {
    let stmts: Vec<Stmt> = Parser::new(tokens(src)).parse().expect("the source parses");
    it.interpret(stmts);
    let mut out = Vec::new();
    let mut n = 0;
    let r = drive(it, &mut out, &mut n).map(|_| ());
    (out, r)
}

fn run(src: &str) -> (Vec<String>, Result<(), String>) {
    run_on(&mut Interpreter::new(), src)
}

fn eval_counting(src: &str) -> (Result<Value, String>, usize) {
    let mut it = Interpreter::new();
    let expr = Parser::new(tokens(src)).expression().expect("the expression parses");
    it.evaluate(expr);
    let mut out = Vec::new();
    let mut n = 0;
    let r = drive(&mut it, &mut out, &mut n).map(|v| v.expect("a value"));
    (r, n)
}

fn eval(src: &str) -> Result<Value, String> {
    eval_counting(src).0
}

fn number(v: Result<Value, String>) -> f64 {
    match v {
        Ok(Value::Number(b)) => f64::from_bits(b),
        other => panic!("not a number: {:?}", other),
    }
}

#[test]
fn string_concatenation() {
    match eval("\"a\" + \"b\" + \"c\"") {
        Ok(Value::String(s)) => assert_eq!(s, "abc"),
        other => panic!("unexpected {:?}", other),
    }
}

#[test]
fn truthiness_of_nil_and_zero() {
    assert!(matches!(eval("!nil"), Ok(Value::Boolean(true))));
    assert!(matches!(eval("!0"), Ok(Value::Boolean(false))));
    assert!(matches!(eval("!\"\""), Ok(Value::Boolean(false))));
    assert!(matches!(eval("!false"), Ok(Value::Boolean(true))));
}

#[test]
fn and_short_circuits() {
    let (r, arithmetic) = eval_counting("false and (1/0)");
    assert!(matches!(r, Ok(Value::Boolean(false))));
    assert_eq!(arithmetic, 0);
}

#[test]
fn or_short_circuits() {
    let (r, arithmetic) = eval_counting("true or (1/0)");
    assert!(matches!(r, Ok(Value::Boolean(true))));
    assert_eq!(arithmetic, 0);
}

#[test]
fn logical_operators_return_the_deciding_operand() {
    match eval("nil or \"x\"") {
        Ok(Value::String(s)) => assert_eq!(s, "x"),
        other => panic!("unexpected {:?}", other),
    }
    assert_eq!(number(eval("1 and 2")), 2.0);
    assert!(matches!(eval("nil and 2"), Ok(Value::Nil)));
}

#[test]
fn inner_declaration_does_not_leak() {
    let (out, r) = run("var a = 1; { var a = 2; } print a;");
    assert!(r.is_ok());
    assert_eq!(out, vec!["1"]);
}

#[test]
fn block_sees_and_assigns_outer_variable() {
    let (out, r) = run("var a = 1; { a = a + 1; print a; } print a;");
    assert!(r.is_ok());
    assert_eq!(out, vec!["2", "2"]);
}

#[test]
fn for_loop_prints_and_does_not_leak() {
    let mut it = Interpreter::new();
    let (out, r) = run_on(&mut it, "for (var i = 0; i < 3; i = i + 1) print i;");
    assert!(r.is_ok());
    assert_eq!(out, vec!["0", "1", "2"]);
    let (out, r) = run_on(&mut it, "print i;");
    assert!(out.is_empty());
    assert_eq!(r, Err("Undefined variable 'i'.".to_string()));
}

#[test]
fn while_loop_runs_until_false() {
    let (out, r) = run("var i = 0; while (i < 3) i = i + 1; print i;");
    assert!(r.is_ok());
    assert_eq!(out, vec!["3"]);
}

#[test]
fn if_else_chooses_a_branch() {
    let (out, _) = run("if (1 > 2) print \"yes\"; else print \"no\"; if (nil) print 1;");
    assert_eq!(out, vec!["no"]);
}

#[test]
fn division_results() {
    assert_eq!(number(eval("6 / 2")), 3.0);
    assert_eq!(number(eval("7 / 2")), 3.5);
    let (out, _) = run("print 6 / 2; print 7 / 2;");
    assert_eq!(out, vec!["3", "3.5"]);
}

#[test]
fn arithmetic_and_negation() {
    assert_eq!(number(eval("1 + 2 * 3 - 4")), 3.0);
    assert_eq!(number(eval("-(2 - 5)")), 3.0);
    assert_eq!(number(eval("--1")), 1.0);
}

#[test]
fn comparisons() {
    assert!(matches!(eval("1 < 2"), Ok(Value::Boolean(true))));
    assert!(matches!(eval("2 <= 1"), Ok(Value::Boolean(false))));
    assert!(matches!(eval("2 >= 2"), Ok(Value::Boolean(true))));
    assert!(matches!(eval("-1 > -2"), Ok(Value::Boolean(true))));
    assert!(matches!(eval("-2 > -1"), Ok(Value::Boolean(false))));
    assert!(matches!(eval("-0 < 0"), Ok(Value::Boolean(false))));
}

#[test]
fn equality_is_structural() {
    assert!(matches!(eval("nil == nil"), Ok(Value::Boolean(true))));
    assert!(matches!(eval("nil == false"), Ok(Value::Boolean(false))));
    assert!(matches!(eval("\"a\" == \"a\""), Ok(Value::Boolean(true))));
    assert!(matches!(eval("1 == \"1\""), Ok(Value::Boolean(false))));
    assert!(matches!(eval("1 != 2"), Ok(Value::Boolean(true))));
    assert!(matches!(eval("-0 == 0"), Ok(Value::Boolean(true))));
    assert!(matches!(eval("0/0 == 0/0"), Ok(Value::Boolean(false))));
}

#[test]
fn numeric_literal_round_trips() {
    assert_eq!(number(eval("0")), 0.0);
    assert_eq!(number(eval("12.5")), 12.5);
    assert_eq!(number(eval("0.1")), 0.1);
    assert_eq!(number(eval("123456789")), 123456789.0);
}

#[test]
fn type_errors_name_the_operator() {
    assert_eq!(eval("-\"a\"").unwrap_err(), "Operand must be a number.");
    assert_eq!(eval("1 + nil").unwrap_err(), "Operands must be two numbers or two strings.");
    assert_eq!(eval("\"a\" - \"b\"").unwrap_err(), "Operands must be numbers.");
    assert_eq!(eval("1 < \"b\"").unwrap_err(), "Operands must be numbers.");
}

#[test]
fn undefined_variable_read_and_assignment() {
    assert_eq!(run("print x;").1, Err("Undefined variable 'x'.".to_string()));
    assert_eq!(run("x = 1;").1, Err("Undefined variable 'x'.".to_string()));
}

#[test]
fn error_stops_the_program_and_leaves_blocks() {
    let mut it = Interpreter::new();
    let (out, r) = run_on(&mut it, "var a = 1; { var b = 2; print b; c; print 3; } print 4;");
    assert_eq!(out, vec!["2"]);
    assert!(r.is_err());
    let (out, r) = run_on(&mut it, "print a;");
    assert_eq!(out, vec!["1"]);
    assert!(r.is_ok());
    let (_, r) = run_on(&mut it, "print b;");
    assert_eq!(r, Err("Undefined variable 'b'.".to_string()));
}

#[test]
fn environment_persists_across_calls() {
    let mut it = Interpreter::new();
    let (_, r) = run_on(&mut it, "var a = 10;");
    assert!(r.is_ok());
    let (out, _) = run_on(&mut it, "a = a * 2; print a;");
    assert_eq!(out, vec!["20"]);
}

#[test]
fn assignment_yields_its_value() {
    let (out, _) = run("var a; print a; print a = 5; print a;");
    assert_eq!(out, vec!["nil", "5", "5"]);
}

#[test]
fn redeclaration_replaces_binding() {
    let (out, _) = run("var a = 1; var a = 2; print a;");
    assert_eq!(out, vec!["2"]);
}

#[test]
fn booleans_and_nil_display() {
    let (out, _) = run("print true; print false; print nil; print \"s\";");
    assert_eq!(out, vec!["true", "false", "nil", "s"]);
}

#[test]
fn idle_machine_is_done() {
    let mut it = Interpreter::new();
    assert!(matches!(it.step(), Step::Done(None)));
}

#[test]
fn literal_evaluates_exactly_on_a_used_machine() {
    let mut it = Interpreter::new();
    let (_, r) = run_on(&mut it, "var a = 1;");
    assert!(r.is_ok());
    let expr = Parser::new(tokens("2.5")).expression().unwrap();
    it.evaluate(expr);
    let mut out = Vec::new();
    let mut n = 0;
    match drive(&mut it, &mut out, &mut n) {
        Ok(Some(Value::Number(b))) => assert_eq!(b, 2.5f64.to_bits()),
        other => panic!("unexpected {:?}", other),
    }
    let (out, _) = run_on(&mut it, "print a;");
    assert_eq!(out, vec!["1"]);
}
