//! The binary operator rule table: arithmetic with its checked overflow
//! and truncating division, comparisons on each concrete type, logic
//! operators, and the stringify-on-mismatch rule of addition.

use rinha::ast::{Binary, BinaryOperator, Bool, Int, Print, Str, Term, Tuple};
use rinha::eval::{eval, EvalOutcome, Output};
use rinha::semantics::EvalError;
use rinha::value::{Scope, Val};

const FUEL: u64 = 100;

fn int_lit(v: i32) -> Term {
    Term::Int(Int { value: v })
}

fn string(s: &str) -> Term {
    Term::Str(Str { value: s.to_string() })
}

fn boolean(b: bool) -> Term {
    Term::Bool(Bool { value: b })
}

fn binary(lhs: Term, op: BinaryOperator, rhs: Term) -> Term {
    Term::Binary(Box::new(Binary { lhs, op, rhs }))
}

fn eval_term(term: Term) -> EvalOutcome {
    let scope = Scope { bindings: Vec::new() };
    let mut out = Output { lines: Vec::new() };
    eval(&term, &scope, &mut out, FUEL)
}

fn expect_int(r: &EvalOutcome) -> i32 {
    match r {
        EvalOutcome::Value(Val::Int(i)) => *i,
        _ => panic!("expected an integer value"),
    }
}

fn expect_str(r: &EvalOutcome) -> String {
    match r {
        EvalOutcome::Value(Val::Str(s)) => s.clone(),
        _ => panic!("expected a string value"),
    }
}

fn expect_bool(r: &EvalOutcome) -> bool {
    match r {
        EvalOutcome::Value(Val::Bool(b)) => *b,
        _ => panic!("expected a boolean value"),
    }
}

fn expect_failure(r: &EvalOutcome) -> EvalError {
    match r {
        EvalOutcome::Failure(e) => *e,
        _ => panic!("expected a failure"),
    }
}

fn binop_ints(a: i32, op: BinaryOperator, b: i32) -> EvalOutcome {
    eval_term(binary(int_lit(a), op, int_lit(b)))
}

#[test]
fn integer_addition() {
    assert_eq!(expect_int(&binop_ints(2, BinaryOperator::Add, 3)), 5);
    assert_eq!(expect_int(&binop_ints(-2, BinaryOperator::Add, 3)), 1);
}

#[test]
fn addition_overflow_is_an_error() {
    let r = binop_ints(i32::MAX, BinaryOperator::Add, 1);
    assert_eq!(expect_failure(&r), EvalError::ArithmeticOverflow);
}

#[test]
fn subtraction_and_multiplication() {
    assert_eq!(expect_int(&binop_ints(2, BinaryOperator::Sub, 5)), -3);
    assert_eq!(expect_int(&binop_ints(-4, BinaryOperator::Mul, 6)), -24);
}

#[test]
fn multiplication_overflow_is_an_error() {
    let r = binop_ints(65536, BinaryOperator::Mul, 65536);
    assert_eq!(expect_failure(&r), EvalError::ArithmeticOverflow);
}

#[test]
fn division_truncates_toward_zero() {
    assert_eq!(expect_int(&binop_ints(7, BinaryOperator::Div, 2)), 3);
    assert_eq!(expect_int(&binop_ints(-7, BinaryOperator::Div, 2)), -3);
    assert_eq!(expect_int(&binop_ints(7, BinaryOperator::Div, -2)), -3);
    assert_eq!(expect_int(&binop_ints(-7, BinaryOperator::Div, -2)), 3);
}

#[test]
fn remainder_has_dividend_sign() {
    assert_eq!(expect_int(&binop_ints(7, BinaryOperator::Rem, 3)), 1);
    assert_eq!(expect_int(&binop_ints(-7, BinaryOperator::Rem, 3)), -1);
    assert_eq!(expect_int(&binop_ints(7, BinaryOperator::Rem, -3)), 1);
    assert_eq!(expect_int(&binop_ints(-7, BinaryOperator::Rem, -3)), -1);
}

#[test]
fn division_identity_holds() {
    for &(a, b) in &[(7, 2), (-7, 2), (7, -2), (-7, -2), (i32::MIN, 2), (i32::MAX, -5)] {
        let q = expect_int(&binop_ints(a, BinaryOperator::Div, b));
        let m = expect_int(&binop_ints(a, BinaryOperator::Rem, b));
        assert_eq!(q as i64 * b as i64 + m as i64, a as i64);
        assert_eq!(m, a.wrapping_rem(b));
    }
}

#[test]
fn division_by_zero() {
    assert_eq!(
        expect_failure(&binop_ints(1, BinaryOperator::Div, 0)),
        EvalError::DivisionByZero,
    );
    assert_eq!(
        expect_failure(&binop_ints(0, BinaryOperator::Div, 0)),
        EvalError::DivisionByZero,
    );
    assert_eq!(
        expect_failure(&binop_ints(1, BinaryOperator::Rem, 0)),
        EvalError::DivisionByZero,
    );
}

#[test]
fn division_overflow_is_an_error() {
    let r = binop_ints(i32::MIN, BinaryOperator::Div, -1);
    assert_eq!(expect_failure(&r), EvalError::ArithmeticOverflow);
    assert_eq!(expect_int(&binop_ints(i32::MIN, BinaryOperator::Rem, -1)), 0);
}

#[test]
fn add_mismatch_concatenates_renderings() {
    assert_eq!(
        expect_str(&eval_term(binary(string("a"), BinaryOperator::Add, int_lit(1)))),
        "a1",
    );
    assert_eq!(
        expect_str(&eval_term(binary(int_lit(-3), BinaryOperator::Add, string("x")))),
        "-3x",
    );
    assert_eq!(
        expect_str(&eval_term(binary(boolean(true), BinaryOperator::Add, int_lit(0)))),
        "true0",
    );
    assert_eq!(
        expect_str(&eval_term(binary(string("ab"), BinaryOperator::Add, string("cd")))),
        "abcd",
    );
}

#[test]
fn add_renders_tuples_recursively() {
    let pair = Term::Tuple(Box::new(Tuple { first: int_lit(1), second: string("x") }));
    let r = eval_term(binary(string(""), BinaryOperator::Add, pair));
    assert_eq!(expect_str(&r), "(1, x)");
}

#[test]
fn subtraction_of_strings_is_type_mismatch() {
    let r = eval_term(binary(string("a"), BinaryOperator::Sub, string("b")));
    assert_eq!(expect_failure(&r), EvalError::TypeMismatch);
}

#[test]
fn integer_comparisons() {
    assert!(expect_bool(&binop_ints(1, BinaryOperator::Lt, 2)));
    assert!(!expect_bool(&binop_ints(2, BinaryOperator::Lt, 2)));
    assert!(expect_bool(&binop_ints(2, BinaryOperator::Lte, 2)));
    assert!(expect_bool(&binop_ints(3, BinaryOperator::Gt, 2)));
    assert!(expect_bool(&binop_ints(2, BinaryOperator::Gte, 2)));
    assert!(expect_bool(&binop_ints(2, BinaryOperator::Eq, 2)));
    assert!(expect_bool(&binop_ints(2, BinaryOperator::Neq, 3)));
}

#[test]
fn string_comparisons_are_lexicographic() {
    let lt = |a: &str, b: &str| {
        expect_bool(&eval_term(binary(string(a), BinaryOperator::Lt, string(b))))
    };
    assert!(lt("abc", "abd"));
    assert!(lt("ab", "abc"));
    assert!(!lt("abc", "abc"));
    assert!(!lt("b", "abc"));
    assert!(expect_bool(&eval_term(binary(
        string("abc"),
        BinaryOperator::Lte,
        string("abc"),
    ))));
    assert!(expect_bool(&eval_term(binary(
        string("b"),
        BinaryOperator::Gt,
        string("a"),
    ))));
    assert!(expect_bool(&eval_term(binary(
        string("x"),
        BinaryOperator::Eq,
        string("x"),
    ))));
    assert!(expect_bool(&eval_term(binary(
        string("x"),
        BinaryOperator::Neq,
        string("y"),
    ))));
}

#[test]
fn boolean_comparisons_order_false_before_true() {
    let cmp = |a: bool, op: BinaryOperator, b: bool| {
        expect_bool(&eval_term(binary(boolean(a), op, boolean(b))))
    };
    assert!(cmp(false, BinaryOperator::Lt, true));
    assert!(!cmp(true, BinaryOperator::Lt, false));
    assert!(!cmp(false, BinaryOperator::Lt, false));
    assert!(cmp(false, BinaryOperator::Lte, false));
    assert!(cmp(true, BinaryOperator::Gt, false));
    assert!(cmp(true, BinaryOperator::Gte, true));
    assert!(cmp(true, BinaryOperator::Eq, true));
    assert!(cmp(true, BinaryOperator::Neq, false));
}

#[test]
fn mixed_type_comparison_is_type_mismatch() {
    let r = eval_term(binary(int_lit(1), BinaryOperator::Eq, string("1")));
    assert_eq!(expect_failure(&r), EvalError::TypeMismatch);
    let r = eval_term(binary(boolean(true), BinaryOperator::Lt, int_lit(1)));
    assert_eq!(expect_failure(&r), EvalError::TypeMismatch);
}

#[test]
fn logic_operators_require_booleans() {
    assert!(expect_bool(&eval_term(binary(boolean(true), BinaryOperator::And, boolean(true)))));
    assert!(!expect_bool(&eval_term(binary(boolean(true), BinaryOperator::And, boolean(false)))));
    assert!(expect_bool(&eval_term(binary(boolean(false), BinaryOperator::Or, boolean(true)))));
    assert!(!expect_bool(&eval_term(binary(boolean(false), BinaryOperator::Or, boolean(false)))));
    let r = eval_term(binary(boolean(true), BinaryOperator::And, int_lit(1)));
    assert_eq!(expect_failure(&r), EvalError::TypeMismatch);
}

#[test]
fn operands_evaluate_left_to_right_without_short_circuit() {
    let lhs = Term::Print(Box::new(Print { value: boolean(false) }));
    let rhs = Term::Print(Box::new(Print { value: boolean(true) }));
    let scope = Scope { bindings: Vec::new() };
    let mut out = Output { lines: Vec::new() };
    let r = eval(
        &binary(lhs, BinaryOperator::And, rhs),
        &scope,
        &mut out,
        FUEL,
    );
    assert!(!expect_bool(&r));
    assert_eq!(out.lines, vec!["false".to_string(), "true".to_string()]);
}
