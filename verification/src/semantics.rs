//! The mathematical semantics of the language: what evaluating a term in an
//! environment yields, and what it prints, as one total spec function over
//! the models.
//!
//! Evaluation of a `Call` steps into a closure body that need not be a
//! subterm, so the definition carries a fuel bound on call depth; an
//! evaluation that runs out of fuel yields `Exhausted` rather than a value
//! or an error.  Every executable entry point is proved to return exactly
//! what this definition says.

use vstd::prelude::*;
use vstd::math::abs;
use crate::ast::{BinaryOperator, TermV};
use crate::value::{ValV, BindingV, lookup};
use crate::render::render;

verus! {

/// A semantic evaluation failure; terminal for the evaluation that raised
/// it.
#[derive(Clone, Copy, PartialEq, Eq, Structural, Debug)]
pub enum EvalError {
    /// An operand, a branch condition, a projected value or a callee had
    /// the wrong type.
    TypeMismatch,
    /// A variable reference that no enclosing scope binds.
    UnboundVariable,
    /// A call whose argument count differs from the closure's parameter
    /// count.
    ArityMismatch,
    /// Integer division or remainder by zero.
    DivisionByZero,
    /// An integer operation whose exact result does not fit in 32 bits.
    ArithmeticOverflow,
}

/// What evaluating one term comes to.
pub enum Outcome {
    /// Evaluation finished with this value.
    Value(ValV),
    /// Evaluation failed; the first failure aborts the whole evaluation.
    Failure(EvalError),
    /// The fuel bound on call depth ran out before evaluation finished.
    Exhausted,
}

/// An outcome together with the lines printed on the way to it, in order.
pub struct Evaluation {
    pub result: Outcome,
    pub output: Seq<Seq<char>>,
}

/// What evaluating an argument list comes to.
pub enum ArgsOutcome {
    /// Every argument evaluated, to these values in order.
    Values(Seq<ValV>),
    /// Some argument failed; the arguments after it were never evaluated.
    Failure(EvalError),
    /// The fuel bound ran out inside an argument.
    Exhausted,
}

/// An argument-list outcome together with the lines printed.
pub struct ArgsEvaluation {
    pub result: ArgsOutcome,
    pub output: Seq<Seq<char>>,
}

/// An evaluation that produced `v` and printed nothing.
pub open spec fn value_only(v: ValV) -> Evaluation {
    Evaluation { result: Outcome::Value(v), output: Seq::empty() }
}

/// Whether an integer fits in 32 signed bits.
pub open spec fn fits_i32(n: int) -> bool {
    i32::MIN <= n <= i32::MAX
}

/// Truncating division: the quotient rounded toward zero, as the machine's
/// signed division behaves.
pub open spec fn trunc_div(a: int, b: int) -> int {
    if (a < 0) == (b < 0) {
        (abs(a) as int) / (abs(b) as int)
    } else {
        -((abs(a) as int) / (abs(b) as int))
    }
}

/// Truncating remainder: what truncating division leaves over, so it has
/// the sign of the dividend (or is zero).
pub open spec fn trunc_rem(a: int, b: int) -> int {
    a - b * trunc_div(a, b)
}

/// An integer result, guarded against 32-bit overflow.
pub open spec fn int_result(n: int) -> Outcome {
    if fits_i32(n) {
        Outcome::Value(ValV::Int(n))
    } else {
        Outcome::Failure(EvalError::ArithmeticOverflow)
    }
}

/// Addition, with the language's stringify-on-mismatch rule: two integers
/// add; any other combination renders both operands and concatenates.
pub open spec fn apply_add(a: ValV, b: ValV) -> Outcome {
    match (a, b) {
        (ValV::Int(x), ValV::Int(y)) => int_result(x + y),
        _ => Outcome::Value(ValV::Str(render(a) + render(b))),
    }
}

/// The per-operator, per-operand-type rule table.  Both operands are
/// already evaluated; `And` and `Or` do not short-circuit.
pub open spec fn apply_op(op: BinaryOperator, a: ValV, b: ValV) -> Outcome {
    match op {
        BinaryOperator::Add => apply_add(a, b),
        BinaryOperator::Sub => match (a, b) {
            (ValV::Int(x), ValV::Int(y)) => int_result(x - y),
            _ => Outcome::Failure(EvalError::TypeMismatch),
        },
        BinaryOperator::Mul => match (a, b) {
            (ValV::Int(x), ValV::Int(y)) => int_result(x * y),
            _ => Outcome::Failure(EvalError::TypeMismatch),
        },
        BinaryOperator::Div => match (a, b) {
            (ValV::Int(x), ValV::Int(y)) => if y == 0 {
                Outcome::Failure(EvalError::DivisionByZero)
            } else {
                int_result(trunc_div(x, y))
            },
            _ => Outcome::Failure(EvalError::TypeMismatch),
        },
        BinaryOperator::Rem => match (a, b) {
            (ValV::Int(x), ValV::Int(y)) => if y == 0 {
                Outcome::Failure(EvalError::DivisionByZero)
            } else {
                int_result(trunc_rem(x, y))
            },
            _ => Outcome::Failure(EvalError::TypeMismatch),
        },
        BinaryOperator::Eq => match (a, b) {
            (ValV::Int(x), ValV::Int(y)) => Outcome::Value(ValV::Bool(x == y)),
            (ValV::Str(x), ValV::Str(y)) => Outcome::Value(ValV::Bool(x == y)),
            (ValV::Bool(x), ValV::Bool(y)) => Outcome::Value(ValV::Bool(x == y)),
            _ => Outcome::Failure(EvalError::TypeMismatch),
        },
        BinaryOperator::Neq => match (a, b) {
            (ValV::Int(x), ValV::Int(y)) => Outcome::Value(ValV::Bool(x != y)),
            (ValV::Str(x), ValV::Str(y)) => Outcome::Value(ValV::Bool(x != y)),
            (ValV::Bool(x), ValV::Bool(y)) => Outcome::Value(ValV::Bool(x != y)),
            _ => Outcome::Failure(EvalError::TypeMismatch),
        },
        BinaryOperator::Lt => match (a, b) {
            (ValV::Int(x), ValV::Int(y)) => Outcome::Value(ValV::Bool(x < y)),
            (ValV::Str(x), ValV::Str(y)) => Outcome::Value(ValV::Bool(crate::text::str_lt(x, y))),
            (ValV::Bool(x), ValV::Bool(y)) => Outcome::Value(ValV::Bool(!x && y)),
            _ => Outcome::Failure(EvalError::TypeMismatch),
        },
        BinaryOperator::Gt => match (a, b) {
            (ValV::Int(x), ValV::Int(y)) => Outcome::Value(ValV::Bool(x > y)),
            (ValV::Str(x), ValV::Str(y)) => Outcome::Value(ValV::Bool(crate::text::str_lt(y, x))),
            (ValV::Bool(x), ValV::Bool(y)) => Outcome::Value(ValV::Bool(x && !y)),
            _ => Outcome::Failure(EvalError::TypeMismatch),
        },
        BinaryOperator::Lte => match (a, b) {
            (ValV::Int(x), ValV::Int(y)) => Outcome::Value(ValV::Bool(x <= y)),
            (ValV::Str(x), ValV::Str(y)) => Outcome::Value(
                ValV::Bool(crate::text::str_lt(x, y) || x == y),
            ),
            (ValV::Bool(x), ValV::Bool(y)) => Outcome::Value(ValV::Bool(!x || y)),
            _ => Outcome::Failure(EvalError::TypeMismatch),
        },
        BinaryOperator::Gte => match (a, b) {
            (ValV::Int(x), ValV::Int(y)) => Outcome::Value(ValV::Bool(x >= y)),
            (ValV::Str(x), ValV::Str(y)) => Outcome::Value(
                ValV::Bool(crate::text::str_lt(y, x) || x == y),
            ),
            (ValV::Bool(x), ValV::Bool(y)) => Outcome::Value(ValV::Bool(x || !y)),
            _ => Outcome::Failure(EvalError::TypeMismatch),
        },
        BinaryOperator::And => match (a, b) {
            (ValV::Bool(x), ValV::Bool(y)) => Outcome::Value(ValV::Bool(x && y)),
            _ => Outcome::Failure(EvalError::TypeMismatch),
        },
        BinaryOperator::Or => match (a, b) {
            (ValV::Bool(x), ValV::Bool(y)) => Outcome::Value(ValV::Bool(x || y)),
            _ => Outcome::Failure(EvalError::TypeMismatch),
        },
    }
}

/// The call frame for one application: the parameter names bound to the
/// argument values, in order, layered over the closure's captured
/// environment.  With duplicate names the later parameter shadows.
pub open spec fn bind_params(
    env: Seq<BindingV>,
    ps: Seq<Seq<char>>,
    vs: Seq<ValV>,
) -> Seq<BindingV>
    decreases ps.len(),
{
    if ps.len() == 0 {
        env
    } else {
        bind_params(
            env.push(BindingV { name: ps[0], val: vs[0] }),
            ps.drop_first(),
            vs.drop_first(),
        )
    }
}

/// What evaluating `t` in `env` yields and prints.  Child expressions
/// evaluate in the fixed orders of the language: left before right, the
/// condition before the taken branch (the untaken branch never evaluates),
/// the callee, then the arity check, then the arguments left to right,
/// then the body.  Each step into a closure body consumes one unit of
/// fuel; with no fuel left the evaluation is `Exhausted`.
pub open spec fn eval_spec(t: TermV, env: Seq<BindingV>, fuel: nat) -> Evaluation
    decreases fuel, t,
{
    match t {
        TermV::Int(i) => value_only(ValV::Int(i)),
        TermV::Str(s) => value_only(ValV::Str(s)),
        TermV::Bool(b) => value_only(ValV::Bool(b)),
        TermV::Print(e) => {
            let ev = eval_spec(*e, env, fuel);
            match ev.result {
                Outcome::Value(v) => Evaluation {
                    result: Outcome::Value(v),
                    output: ev.output.push(render(v)),
                },
                _ => ev,
            }
        },
        TermV::Binary(op, l, r) => {
            let le = eval_spec(*l, env, fuel);
            match le.result {
                Outcome::Value(a) => {
                    let re = eval_spec(*r, env, fuel);
                    match re.result {
                        Outcome::Value(b) => Evaluation {
                            result: apply_op(op, a, b),
                            output: le.output + re.output,
                        },
                        _ => Evaluation { result: re.result, output: le.output + re.output },
                    }
                },
                _ => le,
            }
        },
        TermV::Tuple(f, s) => {
            let fe = eval_spec(*f, env, fuel);
            match fe.result {
                Outcome::Value(a) => {
                    let se = eval_spec(*s, env, fuel);
                    match se.result {
                        Outcome::Value(b) => Evaluation {
                            result: Outcome::Value(ValV::Tuple(Box::new(a), Box::new(b))),
                            output: fe.output + se.output,
                        },
                        _ => Evaluation { result: se.result, output: fe.output + se.output },
                    }
                },
                _ => fe,
            }
        },
        TermV::First(e) => {
            let ev = eval_spec(*e, env, fuel);
            match ev.result {
                Outcome::Value(ValV::Tuple(a, _)) => Evaluation {
                    result: Outcome::Value(*a),
                    output: ev.output,
                },
                Outcome::Value(_) => Evaluation {
                    result: Outcome::Failure(EvalError::TypeMismatch),
                    output: ev.output,
                },
                _ => ev,
            }
        },
        TermV::Second(e) => {
            let ev = eval_spec(*e, env, fuel);
            match ev.result {
                Outcome::Value(ValV::Tuple(_, b)) => Evaluation {
                    result: Outcome::Value(*b),
                    output: ev.output,
                },
                Outcome::Value(_) => Evaluation {
                    result: Outcome::Failure(EvalError::TypeMismatch),
                    output: ev.output,
                },
                _ => ev,
            }
        },
        TermV::If(c, t1, t2) => {
            let ce = eval_spec(*c, env, fuel);
            match ce.result {
                Outcome::Value(ValV::Bool(cond)) => {
                    let be = if cond {
                        eval_spec(*t1, env, fuel)
                    } else {
                        eval_spec(*t2, env, fuel)
                    };
                    Evaluation { result: be.result, output: ce.output + be.output }
                },
                Outcome::Value(_) => Evaluation {
                    result: Outcome::Failure(EvalError::TypeMismatch),
                    output: ce.output,
                },
                _ => ce,
            }
        },
        TermV::Var(name) => match lookup(env, name) {
            Some(v) => value_only(v),
            None => Evaluation {
                result: Outcome::Failure(EvalError::UnboundVariable),
                output: Seq::empty(),
            },
        },
        TermV::Let(name, v, body) => {
            let ve = eval_spec(*v, env, fuel);
            match ve.result {
                Outcome::Value(val) => {
                    let be = eval_spec(*body, env.push(BindingV { name, val }), fuel);
                    Evaluation { result: be.result, output: ve.output + be.output }
                },
                _ => ve,
            }
        },
        TermV::Function(params, body) => value_only(
            ValV::Closure { params, body, env },
        ),
        TermV::Call(callee, args) => {
            let ce = eval_spec(*callee, env, fuel);
            match ce.result {
                Outcome::Value(ValV::Closure { params, body, env: cenv }) => {
                    if args.len() != params.len() {
                        Evaluation {
                            result: Outcome::Failure(EvalError::ArityMismatch),
                            output: ce.output,
                        }
                    } else {
                        let ae = eval_args_spec(args, env, fuel);
                        match ae.result {
                            ArgsOutcome::Values(vs) => {
                                if fuel == 0 {
                                    Evaluation {
                                        result: Outcome::Exhausted,
                                        output: ce.output + ae.output,
                                    }
                                } else {
                                    let be = eval_spec(
                                        *body,
                                        bind_params(cenv, params, vs),
                                        (fuel - 1) as nat,
                                    );
                                    Evaluation {
                                        result: be.result,
                                        output: ce.output + ae.output + be.output,
                                    }
                                }
                            },
                            ArgsOutcome::Failure(e) => Evaluation {
                                result: Outcome::Failure(e),
                                output: ce.output + ae.output,
                            },
                            ArgsOutcome::Exhausted => Evaluation {
                                result: Outcome::Exhausted,
                                output: ce.output + ae.output,
                            },
                        }
                    }
                },
                Outcome::Value(_) => Evaluation {
                    result: Outcome::Failure(EvalError::TypeMismatch),
                    output: ce.output,
                },
                _ => ce,
            }
        },
    }
}

/// What evaluating an argument list, left to right in the caller's
/// environment, yields and prints.  The first failure stops the list.
pub open spec fn eval_args_spec(args: Seq<TermV>, env: Seq<BindingV>, fuel: nat) -> ArgsEvaluation
    decreases fuel, args,
{
    if args.len() == 0 {
        ArgsEvaluation { result: ArgsOutcome::Values(Seq::empty()), output: Seq::empty() }
    } else {
        let fe = eval_spec(args[0], env, fuel);
        match fe.result {
            Outcome::Value(v) => {
                let re = eval_args_spec(args.drop_first(), env, fuel);
                match re.result {
                    ArgsOutcome::Values(vs) => ArgsEvaluation {
                        result: ArgsOutcome::Values(seq![v] + vs),
                        output: fe.output + re.output,
                    },
                    _ => ArgsEvaluation { result: re.result, output: fe.output + re.output },
                }
            },
            Outcome::Failure(e) => ArgsEvaluation {
                result: ArgsOutcome::Failure(e),
                output: fe.output,
            },
            Outcome::Exhausted => ArgsEvaluation {
                result: ArgsOutcome::Exhausted,
                output: fe.output,
            },
        }
    }
}

/// When an argument list evaluates to values, there is exactly one value
/// per argument.
pub proof fn lemma_eval_args_len(args: Seq<TermV>, env: Seq<BindingV>, fuel: nat)
    ensures
        match eval_args_spec(args, env, fuel).result {
            ArgsOutcome::Values(vs) => vs.len() == args.len(),
            _ => true,
        },
    decreases args.len(),
{
    if args.len() > 0 {
        lemma_eval_args_len(args.drop_first(), env, fuel);
    }
}

} // verus!
