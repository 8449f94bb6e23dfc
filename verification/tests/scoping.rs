//! Scopes, closures and structural values: lookup and shadowing, closure
//! capture at definition time, the arity check, tuple projection, and the
//! rendering of values.

use rinha::ast::{Binary, BinaryOperator, Bool, Call, First, Function, Int, Let, Parameter,
    Print, Second, Str, Term, Tuple, Var};
use rinha::eval::{eval, EvalOutcome, Output};
use rinha::semantics::EvalError;
use rinha::value::{Scope, Val};

const FUEL: u64 = 100;

fn int_lit(v: i32) -> Term {
    Term::Int(Int { value: v })
}

fn string(s: &str) -> Term {
    Term::Str(Str { value: s.to_string() })
}

fn var(name: &str) -> Term {
    Term::Var(Var { text: name.to_string() })
}

fn let_in(name: &str, value: Term, next: Term) -> Term {
    Term::Let(Box::new(Let { name: Parameter { text: name.to_string() }, value, next }))
}

fn function(params: &[&str], value: Term) -> Term {
    Term::Function(Box::new(Function {
        parameters: params.iter().map(|p| Parameter { text: p.to_string() }).collect(),
        value,
    }))
}

fn call(callee: Term, arguments: Vec<Term>) -> Term {
    Term::Call(Box::new(Call { callee, arguments }))
}

fn tuple(first: Term, second: Term) -> Term {
    Term::Tuple(Box::new(Tuple { first, second }))
}

fn eval_term(term: Term) -> EvalOutcome {
    let scope = Scope { bindings: Vec::new() };
    let mut out = Output { lines: Vec::new() };
    eval(&term, &scope, &mut out, FUEL)
}

fn expect_int(r: &EvalOutcome) -> i32 {
    match r {
        EvalOutcome::Value(Val::Int(i)) => *i,
        _ => panic!("expected an integer value"),
    }
}

fn expect_failure(r: &EvalOutcome) -> EvalError {
    match r {
        EvalOutcome::Failure(e) => *e,
        _ => panic!("expected a failure"),
    }
}

#[test]
fn unbound_variable_is_an_error() {
    let r = eval_term(var("nowhere"));
    assert_eq!(expect_failure(&r), EvalError::UnboundVariable);
}

#[test]
fn let_binds_for_its_body() {
    let r = eval_term(let_in("x", int_lit(7), var("x")));
    assert_eq!(expect_int(&r), 7);
}

#[test]
fn inner_let_shadows_outer() {
    let r = eval_term(let_in("x", int_lit(1), let_in("x", int_lit(2), var("x"))));
    assert_eq!(expect_int(&r), 2);
}

#[test]
fn outer_binding_survives_in_sibling_branch() {
    // let x = 1 in (let x = 2 in x, x)  ==>  (2, 1)
    let r = eval_term(let_in(
        "x",
        int_lit(1),
        tuple(let_in("x", int_lit(2), var("x")), var("x")),
    ));
    match r {
        EvalOutcome::Value(Val::Tuple((a, b))) => {
            assert!(matches!(*a, Val::Int(2)));
            assert!(matches!(*b, Val::Int(1)));
        },
        _ => panic!("expected a tuple value"),
    }
}

#[test]
fn let_name_not_visible_in_its_own_value() {
    // let x = x in x: the value expression must not see the binding.
    let r = eval_term(let_in("x", var("x"), var("x")));
    assert_eq!(expect_failure(&r), EvalError::UnboundVariable);
}

#[test]
fn closure_sees_definition_scope() {
    // let x = 1 in let f = fun(){ x } in f()
    let r = eval_term(let_in(
        "x",
        int_lit(1),
        let_in("f", function(&[], var("x")), call(var("f"), vec![])),
    ));
    assert_eq!(expect_int(&r), 1);
}

#[test]
fn closure_does_not_see_later_let() {
    // let f = fun(){ y } in let y = 9 in f(): y was bound after capture.
    let r = eval_term(let_in(
        "f",
        function(&[], var("y")),
        let_in("y", int_lit(9), call(var("f"), vec![])),
    ));
    assert_eq!(expect_failure(&r), EvalError::UnboundVariable);
}

#[test]
fn closure_keeps_snapshot_across_shadowing() {
    // let x = 1 in let f = fun(){ x } in let x = 2 in f(): capture is a
    // snapshot, so the call still sees 1.
    let r = eval_term(let_in(
        "x",
        int_lit(1),
        let_in(
            "f",
            function(&[], var("x")),
            let_in("x", int_lit(2), call(var("f"), vec![])),
        ),
    ));
    assert_eq!(expect_int(&r), 1);
}

#[test]
fn closure_passed_through_another_closure() {
    // let f = fun(x){ x } in let g = fun(){ f } in g()(41)
    let r = eval_term(let_in(
        "f",
        function(&["x"], var("x")),
        let_in(
            "g",
            function(&[], var("f")),
            call(call(var("g"), vec![]), vec![int_lit(41)]),
        ),
    ));
    assert_eq!(expect_int(&r), 41);
}

#[test]
fn arguments_evaluate_in_caller_scope() {
    // let x = 1 in let f = fun(y){ y } in let x = 5 in f(x)  ==>  5
    let r = eval_term(let_in(
        "x",
        int_lit(1),
        let_in(
            "f",
            function(&["y"], var("y")),
            let_in("x", int_lit(5), call(var("f"), vec![var("x")])),
        ),
    ));
    assert_eq!(expect_int(&r), 5);
}

#[test]
fn arity_mismatch_with_no_arguments() {
    let r = eval_term(let_in(
        "f",
        function(&["x"], var("x")),
        call(var("f"), vec![]),
    ));
    assert_eq!(expect_failure(&r), EvalError::ArityMismatch);
}

#[test]
fn arity_mismatch_with_two_arguments() {
    let r = eval_term(let_in(
        "f",
        function(&["x"], var("x")),
        call(var("f"), vec![int_lit(1), int_lit(2)]),
    ));
    assert_eq!(expect_failure(&r), EvalError::ArityMismatch);
}

#[test]
fn arity_mismatch_never_executes_the_body() {
    // The body would print; on a bad-arity call it must not.
    let body = Term::Print(Box::new(Print { value: string("ran") }));
    let scope = Scope { bindings: Vec::new() };
    let mut out = Output { lines: Vec::new() };
    let r = eval(
        &let_in("f", function(&["x"], body), call(var("f"), vec![])),
        &scope,
        &mut out,
        FUEL,
    );
    assert_eq!(expect_failure(&r), EvalError::ArityMismatch);
    assert!(out.lines.is_empty());
}

#[test]
fn calling_a_non_closure_is_type_mismatch() {
    let r = eval_term(call(int_lit(3), vec![]));
    assert_eq!(expect_failure(&r), EvalError::TypeMismatch);
}

#[test]
fn tuple_projections_round_trip() {
    let first = Term::First(Box::new(First { value: tuple(int_lit(10), string("s")) }));
    assert_eq!(expect_int(&eval_term(first)), 10);
    let second = Term::Second(Box::new(Second { value: tuple(int_lit(10), int_lit(20)) }));
    assert_eq!(expect_int(&eval_term(second)), 20);
}

#[test]
fn projection_of_non_tuple_is_type_mismatch() {
    let r = eval_term(Term::First(Box::new(First { value: int_lit(1) })));
    assert_eq!(expect_failure(&r), EvalError::TypeMismatch);
    let r = eval_term(Term::Second(Box::new(Second { value: string("x") })));
    assert_eq!(expect_failure(&r), EvalError::TypeMismatch);
}

#[test]
fn scope_get_and_set() {
    let mut scope = Scope { bindings: Vec::new() };
    assert!(scope.get("x").is_none());
    scope.set("x".to_string(), Val::Int(1));
    scope.set("y".to_string(), Val::Int(2));
    assert!(matches!(scope.get("x"), Some(Val::Int(1))));
    assert!(matches!(scope.get("y"), Some(Val::Int(2))));
    scope.set("x".to_string(), Val::Int(3));
    assert!(matches!(scope.get("x"), Some(Val::Int(3))));
    assert!(scope.get("z").is_none());
}

#[test]
fn rendering_of_values() {
    assert_eq!(Val::Int(0).to_display_string(), "0");
    assert_eq!(Val::Int(-2147483648).to_display_string(), "-2147483648");
    assert_eq!(Val::Int(2147483647).to_display_string(), "2147483647");
    assert_eq!(Val::Bool(true).to_display_string(), "true");
    assert_eq!(Val::Bool(false).to_display_string(), "false");
    assert_eq!(Val::Str("plain".to_string()).to_display_string(), "plain");
    let nested = Val::Tuple((
        Box::new(Val::Int(1)),
        Box::new(Val::Tuple((
            Box::new(Val::Str("s".to_string())),
            Box::new(Val::Bool(false)),
        ))),
    ));
    assert_eq!(nested.to_display_string(), "(1, (s, false))");
    let closure = Val::Closure {
        func: Function { parameters: vec![], value: int_lit(1) },
        env: Scope { bindings: Vec::new() },
    };
    assert_eq!(closure.to_display_string(), "<#closure>");
}

#[test]
fn duplicate_parameters_bind_left_to_right() {
    // fun(x, x){ x } called with (1, 2): the later parameter shadows.
    let r = eval_term(call(function(&["x", "x"], var("x")), vec![int_lit(1), int_lit(2)]));
    assert_eq!(expect_int(&r), 2);
}
