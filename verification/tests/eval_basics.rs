//! End-to-end evaluations: literals, print, conditionals, and recursion
//! through a self-passed closure.

use rinha::ast::{Binary, BinaryOperator, Bool, Call, Function, If, Int, Let, Parameter, Print,
    Program, Str, Term, Var};
use rinha::eval::{run, EvalOutcome, Output};
use rinha::semantics::EvalError;
use rinha::value::Val;

const FUEL: u64 = 1000;

fn int_lit(v: i32) -> Term {
    Term::Int(Int { value: v })
}

fn string(s: &str) -> Term {
    Term::Str(Str { value: s.to_string() })
}

fn boolean(b: bool) -> Term {
    Term::Bool(Bool { value: b })
}

fn var(name: &str) -> Term {
    Term::Var(Var { text: name.to_string() })
}

fn binary(lhs: Term, op: BinaryOperator, rhs: Term) -> Term {
    Term::Binary(Box::new(Binary { lhs, op, rhs }))
}

fn print(value: Term) -> Term {
    Term::Print(Box::new(Print { value }))
}

fn let_in(name: &str, value: Term, next: Term) -> Term {
    Term::Let(Box::new(Let { name: Parameter { text: name.to_string() }, value, next }))
}

fn function(params: &[&str], value: Term) -> Term {
    Term::Function(Box::new(Function {
        parameters: params.iter().map(|p| Parameter { text: p.to_string() }).collect(),
        value,
    }))
}

fn call(callee: Term, arguments: Vec<Term>) -> Term {
    Term::Call(Box::new(Call { callee, arguments }))
}

fn if_term(condition: Term, then_branch: Term, otherwise: Term) -> Term {
    Term::If(Box::new(If { condition, then_branch, otherwise }))
}

fn run_term(term: Term) -> (EvalOutcome, Vec<String>) {
    let program = Program { name: "test".to_string(), expression: term };
    let mut out = Output { lines: Vec::new() };
    let r = run(&program, &mut out, FUEL);
    (r, out.lines)
}

fn expect_int(r: &EvalOutcome) -> i32 {
    match r {
        EvalOutcome::Value(Val::Int(i)) => *i,
        _ => panic!("expected an integer value"),
    }
}

fn expect_str(r: &EvalOutcome) -> String {
    match r {
        EvalOutcome::Value(Val::Str(s)) => s.clone(),
        _ => panic!("expected a string value"),
    }
}

fn expect_failure(r: &EvalOutcome) -> EvalError {
    match r {
        EvalOutcome::Failure(e) => *e,
        _ => panic!("expected a failure"),
    }
}

#[test]
fn literal_integer() {
    let (r, lines) = run_term(int_lit(42));
    assert_eq!(expect_int(&r), 42);
    assert!(lines.is_empty());
}

#[test]
fn literal_string() {
    let (r, _) = run_term(string("hello"));
    assert_eq!(expect_str(&r), "hello");
}

#[test]
fn literal_boolean() {
    let (r, _) = run_term(boolean(true));
    assert!(matches!(r, EvalOutcome::Value(Val::Bool(true))));
}

#[test]
fn print_sum_yields_value_and_output() {
    let (r, lines) = run_term(print(binary(int_lit(1), BinaryOperator::Add, int_lit(2))));
    assert_eq!(expect_int(&r), 3);
    assert_eq!(lines, vec!["3".to_string()]);
}

#[test]
fn print_string_plus_integer() {
    let (r, lines) = run_term(print(binary(string("a"), BinaryOperator::Add, int_lit(1))));
    assert_eq!(expect_str(&r), "a1");
    assert_eq!(lines, vec!["a1".to_string()]);
}

#[test]
fn if_takes_then_branch() {
    let (r, _) = run_term(if_term(
        binary(int_lit(2), BinaryOperator::Gt, int_lit(1)),
        string("yes"),
        string("no"),
    ));
    assert_eq!(expect_str(&r), "yes");
}

#[test]
fn untaken_branch_never_evaluates() {
    let (r, lines) = run_term(if_term(
        binary(int_lit(2), BinaryOperator::Gt, int_lit(1)),
        string("yes"),
        print(string("no")),
    ));
    assert_eq!(expect_str(&r), "yes");
    assert!(lines.is_empty());
}

#[test]
fn if_on_non_boolean_is_type_mismatch() {
    let (r, _) = run_term(if_term(int_lit(1), int_lit(2), int_lit(3)));
    assert_eq!(expect_failure(&r), EvalError::TypeMismatch);
}

#[test]
fn print_is_an_expression() {
    let (r, lines) = run_term(binary(print(int_lit(2)), BinaryOperator::Mul, print(int_lit(3))));
    assert_eq!(expect_int(&r), 6);
    assert_eq!(lines, vec!["2".to_string(), "3".to_string()]);
}

#[test]
fn factorial_via_self_passed_closure() {
    // let fact = fun(f, n) { if n == 0 { 1 } else { n * f(f, n - 1) } }
    // in fact(fact, 5)
    let body = if_term(
        binary(var("n"), BinaryOperator::Eq, int_lit(0)),
        int_lit(1),
        binary(
            var("n"),
            BinaryOperator::Mul,
            call(
                var("f"),
                vec![var("f"), binary(var("n"), BinaryOperator::Sub, int_lit(1))],
            ),
        ),
    );
    let program = let_in(
        "fact",
        function(&["f", "n"], body),
        call(var("fact"), vec![var("fact"), int_lit(5)]),
    );
    let (r, lines) = run_term(program);
    assert_eq!(expect_int(&r), 120);
    assert!(lines.is_empty());
}

#[test]
fn fuel_exhaustion_on_unbounded_recursion() {
    // let loop = fun(f) { f(f) } in loop(loop)
    let program = let_in(
        "spin",
        function(&["f"], call(var("f"), vec![var("f")])),
        call(var("spin"), vec![var("spin")]),
    );
    let (r, lines) = run_term(program);
    assert!(matches!(r, EvalOutcome::Exhausted));
    assert!(lines.is_empty());
}
