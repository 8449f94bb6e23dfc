//! The executable evaluator, proved to return exactly what the
//! mathematical semantics in `semantics` says, and to print exactly the
//! lines it says, in order.

use vstd::prelude::*;
use vstd::string::*;
use vstd::math::abs;
use vstd::seq_lib::lemma_concat_associative;
use crate::ast::{BinaryOperator, Term, TermV, Program, Parameter, terms_view, term_view,
    lemma_terms_view, params_view};
use crate::value::{Val, ValV, BindingV, Scope, vals_view, lemma_vals_view};
use crate::semantics::{
    EvalError, Outcome, ArgsOutcome, apply_op, int_result, trunc_div, trunc_rem,
    eval_spec, eval_args_spec, bind_params, lemma_eval_args_len,
};
use crate::text::{str_eq, str_lt_exec};

verus! {

broadcast use vstd::seq_lib::group_seq_lib_default;

/// The injected output sink: collects each printed line, in order.
pub struct Output {
    pub lines: Vec<String>,
}

impl View for Output {
    type V = Seq<Seq<char>>;

    open spec fn view(&self) -> Seq<Seq<char>> {
        self.lines.deep_view()
    }
}

impl Output {
    /// A sink that has seen no output yet.
    pub fn new() -> (o: Output)
        ensures
            o@ == Seq::<Seq<char>>::empty(),
    {
        let o = Output { lines: Vec::new() };
        proof {
            assert(o@ =~= Seq::<Seq<char>>::empty());
        }
        o
    }

    /// Consumes one printed line.
    pub fn emit(&mut self, line: String)
        ensures
            final(self)@ == old(self)@.push(line@),
    {
        self.lines.push(line);
        proof {
            assert(self@ =~= old(self)@.push(line@));
        }
    }
}

/// What evaluating one term came to at run time.
#[derive(Debug)]
pub enum EvalOutcome {
    /// Evaluation finished with this value.
    Value(Val),
    /// Evaluation failed; the first failure aborted the whole evaluation.
    Failure(EvalError),
    /// The fuel bound on call depth ran out before evaluation finished.
    Exhausted,
}

impl View for EvalOutcome {
    type V = Outcome;

    open spec fn view(&self) -> Outcome {
        match self {
            EvalOutcome::Value(v) => Outcome::Value(v@),
            EvalOutcome::Failure(e) => Outcome::Failure(*e),
            EvalOutcome::Exhausted => Outcome::Exhausted,
        }
    }
}

/// The outcome a `Result` from an operator application stands for.
pub open spec fn outcome_of(r: Result<Val, EvalError>) -> Outcome {
    match r {
        Ok(v) => Outcome::Value(v@),
        Err(e) => Outcome::Failure(e),
    }
}

/// Checked 32-bit addition.
fn add_ints(x: i32, y: i32) -> (r: Result<Val, EvalError>)
    ensures
        outcome_of(r) == int_result(x as int + y as int),
{
    let s: i64 = (x as i64) + (y as i64);
    if i32::MIN as i64 <= s && s <= i32::MAX as i64 {
        Ok(Val::Int(s as i32))
    } else {
        Err(EvalError::ArithmeticOverflow)
    }
}

/// Checked 32-bit subtraction.
fn sub_ints(x: i32, y: i32) -> (r: Result<Val, EvalError>)
    ensures
        outcome_of(r) == int_result(x as int - y as int),
{
    let s: i64 = (x as i64) - (y as i64);
    if i32::MIN as i64 <= s && s <= i32::MAX as i64 {
        Ok(Val::Int(s as i32))
    } else {
        Err(EvalError::ArithmeticOverflow)
    }
}

/// Checked 32-bit multiplication.
fn mul_ints(x: i32, y: i32) -> (r: Result<Val, EvalError>)
    ensures
        outcome_of(r) == int_result(x as int * y as int),
{
    proof {
        assert(-0x4000_0000_0000_0000 <= (x as int) * (y as int)
            && (x as int) * (y as int) <= 0x4000_0000_0000_0000) by (nonlinear_arith)
            requires
                -0x8000_0000 <= x as int <= 0x7fff_ffff,
                -0x8000_0000 <= y as int <= 0x7fff_ffff,
        ;
    }
    let p: i64 = (x as i64) * (y as i64);
    if i32::MIN as i64 <= p && p <= i32::MAX as i64 {
        Ok(Val::Int(p as i32))
    } else {
        Err(EvalError::ArithmeticOverflow)
    }
}

/// The magnitude of a 32-bit integer, exactly `abs` of its value.
fn magnitude(x: i32) -> (m: u64)
    ensures
        m as int == abs(x as int),
{
    if x < 0 {
        (-(x as i64)) as u64
    } else {
        x as u64
    }
}

/// Truncating 32-bit division; the one overflowing pair is excluded.
fn div_ints(x: i32, y: i32) -> (q: i32)
    requires
        y != 0,
        !(x == i32::MIN && y == -1),
    ensures
        q as int == trunc_div(x as int, y as int),
{
    let ax = magnitude(x);
    let ay = magnitude(y);
    let qu: u64 = ax / ay;
    proof {
        assert(qu as int <= ax as int) by (nonlinear_arith)
            requires
                qu as int == ax as int / ay as int,
                ay as int >= 1,
                ax as int >= 0,
        ;
    }
    if (x < 0) == (y < 0) {
        proof {
            if ax == 0x8000_0000 {
                assert(x == i32::MIN);
                assert(y <= -2);
                assert(ay as int >= 2);
                assert(qu as int <= ax as int / 2) by (nonlinear_arith)
                    requires
                        qu as int == ax as int / ay as int,
                        ay as int >= 2,
                        ax as int >= 0,
                ;
            }
        }
        qu as i32
    } else {
        (-(qu as i64)) as i32
    }
}

/// Truncating 32-bit remainder: the sign convention of the machine's
/// native remainder, so the result has the sign of the dividend or is
/// zero.
fn rem_ints(x: i32, y: i32) -> (r: i32)
    requires
        y != 0,
    ensures
        r as int == trunc_rem(x as int, y as int),
{
    let ax = magnitude(x);
    let ay = magnitude(y);
    let ru: u64 = ax % ay;
    proof {
        vstd::arithmetic::div_mod::lemma_fundamental_div_mod(ax as int, ay as int);
        vstd::arithmetic::div_mod::lemma_mod_bound(ax as int, ay as int);
        let a = x as int;
        let b = y as int;
        let bq = (ay as int) * (ax as int / ay as int);
        assert(ax as int == bq + ru as int);
        assert(b * trunc_div(a, b) == bq || b * trunc_div(a, b) == -bq) by (nonlinear_arith)
            requires
                trunc_div(a, b) == if (a < 0) == (b < 0) {
                    (abs(a) as int) / (abs(b) as int)
                } else {
                    -((abs(a) as int) / (abs(b) as int))
                },
                ay as int == abs(b),
                ax as int == abs(a),
                bq == (ay as int) * (ax as int / ay as int),
                b == ay as int || b == -(ay as int),
        ;
        assert(if a < 0 {
            trunc_rem(a, b) == -(ru as int)
        } else {
            trunc_rem(a, b) == ru as int
        }) by (nonlinear_arith)
            requires
                trunc_rem(a, b) == a - b * trunc_div(a, b),
                trunc_div(a, b) == if (a < 0) == (b < 0) {
                    (abs(a) as int) / (abs(b) as int)
                } else {
                    -((abs(a) as int) / (abs(b) as int))
                },
                ax as int == abs(a),
                ay as int == abs(b),
                a == ax as int || a == -(ax as int),
                b == ay as int || b == -(ay as int),
                (a < 0) ==> a == -(ax as int),
                (a >= 0) ==> a == ax as int,
                (b < 0) ==> b == -(ay as int),
                (b >= 0) ==> b == ay as int,
                ax as int == (ay as int) * (ax as int / ay as int) + ru as int,
        ;
        assert(ru as int <= 0x8000_0000 - 1);
    }
    if x < 0 {
        (-(ru as i64)) as i32
    } else {
        ru as i32
    }
}

/// Applies one binary operator to two already-evaluated operands,
/// following the semantic rule table exactly.
pub fn apply_binary(op: BinaryOperator, a: &Val, b: &Val) -> (r: Result<Val, EvalError>)
    ensures
        outcome_of(r) == apply_op(op, a@, b@),
{
    match op {
        BinaryOperator::Add => match (a, b) {
            (Val::Int(x), Val::Int(y)) => add_ints(*x, *y),
            _ => {
                let mut s = a.to_display_string();
                let sb = b.to_display_string();
                s.append(sb.as_str());
                Ok(Val::Str(s))
            },
        },
        BinaryOperator::Sub => match (a, b) {
            (Val::Int(x), Val::Int(y)) => sub_ints(*x, *y),
            _ => Err(EvalError::TypeMismatch),
        },
        BinaryOperator::Mul => match (a, b) {
            (Val::Int(x), Val::Int(y)) => mul_ints(*x, *y),
            _ => Err(EvalError::TypeMismatch),
        },
        BinaryOperator::Div => match (a, b) {
            (Val::Int(x), Val::Int(y)) => {
                if *y == 0 {
                    Err(EvalError::DivisionByZero)
                } else if *x == i32::MIN && *y == -1 {
                    proof {
                        assert(trunc_div(*x as int, *y as int) == 0x8000_0000) by (nonlinear_arith)
                            requires
                                trunc_div(*x as int, *y as int) == if (*x < 0) == (*y < 0) {
                                    (abs(*x as int) as int) / (abs(*y as int) as int)
                                } else {
                                    -((abs(*x as int) as int) / (abs(*y as int) as int))
                                },
                                *x == i32::MIN,
                                *y == -1i32,
                        ;
                    }
                    Err(EvalError::ArithmeticOverflow)
                } else {
                    Ok(Val::Int(div_ints(*x, *y)))
                }
            },
            _ => Err(EvalError::TypeMismatch),
        },
        BinaryOperator::Rem => match (a, b) {
            (Val::Int(x), Val::Int(y)) => {
                if *y == 0 {
                    Err(EvalError::DivisionByZero)
                } else {
                    Ok(Val::Int(rem_ints(*x, *y)))
                }
            },
            _ => Err(EvalError::TypeMismatch),
        },
        BinaryOperator::Eq => match (a, b) {
            (Val::Int(x), Val::Int(y)) => Ok(Val::Bool(*x == *y)),
            (Val::Str(x), Val::Str(y)) => Ok(Val::Bool(str_eq(x.as_str(), y.as_str()))),
            (Val::Bool(x), Val::Bool(y)) => Ok(Val::Bool(*x == *y)),
            _ => Err(EvalError::TypeMismatch),
        },
        BinaryOperator::Neq => match (a, b) {
            (Val::Int(x), Val::Int(y)) => Ok(Val::Bool(*x != *y)),
            (Val::Str(x), Val::Str(y)) => Ok(Val::Bool(!str_eq(x.as_str(), y.as_str()))),
            (Val::Bool(x), Val::Bool(y)) => Ok(Val::Bool(*x != *y)),
            _ => Err(EvalError::TypeMismatch),
        },
        BinaryOperator::Lt => match (a, b) {
            (Val::Int(x), Val::Int(y)) => Ok(Val::Bool(*x < *y)),
            (Val::Str(x), Val::Str(y)) => Ok(Val::Bool(str_lt_exec(x.as_str(), y.as_str()))),
            (Val::Bool(x), Val::Bool(y)) => Ok(Val::Bool(!*x && *y)),
            _ => Err(EvalError::TypeMismatch),
        },
        BinaryOperator::Gt => match (a, b) {
            (Val::Int(x), Val::Int(y)) => Ok(Val::Bool(*x > *y)),
            (Val::Str(x), Val::Str(y)) => Ok(Val::Bool(str_lt_exec(y.as_str(), x.as_str()))),
            (Val::Bool(x), Val::Bool(y)) => Ok(Val::Bool(*x && !*y)),
            _ => Err(EvalError::TypeMismatch),
        },
        BinaryOperator::Lte => match (a, b) {
            (Val::Int(x), Val::Int(y)) => Ok(Val::Bool(*x <= *y)),
            (Val::Str(x), Val::Str(y)) => Ok(Val::Bool(
                str_lt_exec(x.as_str(), y.as_str()) || str_eq(x.as_str(), y.as_str()),
            )),
            (Val::Bool(x), Val::Bool(y)) => Ok(Val::Bool(!*x || *y)),
            _ => Err(EvalError::TypeMismatch),
        },
        BinaryOperator::Gte => match (a, b) {
            (Val::Int(x), Val::Int(y)) => Ok(Val::Bool(*x >= *y)),
            (Val::Str(x), Val::Str(y)) => Ok(Val::Bool(
                str_lt_exec(y.as_str(), x.as_str()) || str_eq(x.as_str(), y.as_str()),
            )),
            (Val::Bool(x), Val::Bool(y)) => Ok(Val::Bool(*x || !*y)),
            _ => Err(EvalError::TypeMismatch),
        },
        BinaryOperator::And => match (a, b) {
            (Val::Bool(x), Val::Bool(y)) => Ok(Val::Bool(*x && *y)),
            _ => Err(EvalError::TypeMismatch),
        },
        BinaryOperator::Or => match (a, b) {
            (Val::Bool(x), Val::Bool(y)) => Ok(Val::Bool(*x || *y)),
            _ => Err(EvalError::TypeMismatch),
        },
    }
}

/// What evaluating an argument list came to at run time.
enum ArgsExec {
    Values(Vec<Val>),
    Failure(EvalError),
    Exhausted,
}

/// The model of an argument-list outcome.
spec fn args_exec_view(r: ArgsExec) -> ArgsOutcome {
    match r {
        ArgsExec::Values(vs) => ArgsOutcome::Values(vals_view(vs@)),
        ArgsExec::Failure(e) => ArgsOutcome::Failure(e),
        ArgsExec::Exhausted => ArgsOutcome::Exhausted,
    }
}

/// Builds the call frame for one application: the closure's captured
/// environment extended with each parameter bound to its argument value,
/// left to right.
fn bind_frame(env: Scope, params: &Vec<Parameter>, vs: &Vec<Val>) -> (r: Scope)
    requires
        params@.len() == vs@.len(),
    ensures
        r@ == bind_params(env@, params_view(params@), vals_view(vs@)),
{
    let ghost env0 = env@;
    let ghost ps = params_view(params@);
    let ghost vsv = vals_view(vs@);
    let mut frame = env;
    let n = params.len();
    let mut i: usize = 0;
    proof {
        lemma_vals_view(vs@);
        assert(ps.skip(0) =~= ps);
        assert(vsv.skip(0) =~= vsv);
    }
    while i < n
        invariant
            i <= n,
            n == params@.len(),
            n == vs@.len(),
            ps == params_view(params@),
            vsv == vals_view(vs@),
            ps.len() == n,
            vsv.len() == n,
            forall|j: int| 0 <= j < n ==> vsv[j] == vs@[j]@,
            bind_params(env0, ps, vsv) == bind_params(frame@, ps.skip(i as int), vsv.skip(i as int)),
        decreases n - i,
    {
        let ghost prev = frame@;
        frame.set(params[i].text.clone(), vs[i].clone());
        i = i + 1;
        proof {
            let s1 = ps.skip(i - 1);
            let v1 = vsv.skip(i - 1);
            assert(s1[0] == ps[i - 1] && v1[0] == vsv[i - 1]);
            assert(s1.drop_first() =~= ps.skip(i as int));
            assert(v1.drop_first() =~= vsv.skip(i as int));
            assert(frame@ == prev.push(BindingV { name: ps[i - 1], val: vsv[i - 1] }));
        }
    }
    proof {
        assert(ps.skip(n as int) =~= Seq::<Seq<char>>::empty());
        assert(vsv.skip(n as int) =~= Seq::<ValV>::empty());
    }
    frame
}

/// Evaluates `term` in `scope`, appending everything printed to `out`,
/// with `fuel` bounding the call depth.  Returns and prints exactly what
/// the semantics `eval_spec` says.
pub fn eval(term: &Term, scope: &Scope, out: &mut Output, fuel: u64) -> (r: EvalOutcome)
    ensures
        ({
            let ev = eval_spec(term@, scope@, fuel as nat);
            r@ == ev.result && final(out)@ == old(out)@ + ev.output
        }),
    decreases fuel, *term,
{
    match term {
        Term::Int(n) => EvalOutcome::Value(Val::Int(n.value)),
        Term::Str(s) => EvalOutcome::Value(Val::Str(s.value.clone())),
        Term::Bool(b) => EvalOutcome::Value(Val::Bool(b.value)),
        Term::Print(p) => {
            let v = eval(&p.value, scope, out, fuel);
            match v {
                EvalOutcome::Value(val) => {
                    let line = val.to_display_string();
                    out.emit(line);
                    EvalOutcome::Value(val)
                },
                other => other,
            }
        },
        Term::Binary(bn) => {
            let lv = eval(&bn.lhs, scope, out, fuel);
            match lv {
                EvalOutcome::Value(a) => {
                    let rv = eval(&bn.rhs, scope, out, fuel);
                    proof {
                        let ev1 = eval_spec(bn.lhs@, scope@, fuel as nat);
                        let ev2 = eval_spec(bn.rhs@, scope@, fuel as nat);
                        lemma_concat_associative(old(out)@, ev1.output, ev2.output);
                    }
                    match rv {
                        EvalOutcome::Value(b) => match apply_binary(bn.op, &a, &b) {
                            Ok(v) => EvalOutcome::Value(v),
                            Err(e) => EvalOutcome::Failure(e),
                        },
                        other => other,
                    }
                },
                other => other,
            }
        },
        Term::Tuple(t) => {
            let fv = eval(&t.first, scope, out, fuel);
            match fv {
                EvalOutcome::Value(a) => {
                    let sv = eval(&t.second, scope, out, fuel);
                    proof {
                        let ev1 = eval_spec(t.first@, scope@, fuel as nat);
                        let ev2 = eval_spec(t.second@, scope@, fuel as nat);
                        lemma_concat_associative(old(out)@, ev1.output, ev2.output);
                    }
                    match sv {
                        EvalOutcome::Value(b) => EvalOutcome::Value(
                            Val::Tuple((Box::new(a), Box::new(b))),
                        ),
                        other => other,
                    }
                },
                other => other,
            }
        },
        Term::First(f) => {
            let v = eval(&f.value, scope, out, fuel);
            match v {
                EvalOutcome::Value(val) => match val {
                    Val::Tuple(pair) => EvalOutcome::Value(*pair.0),
                    Val::Str(_) => EvalOutcome::Failure(EvalError::TypeMismatch),
                    Val::Int(_) => EvalOutcome::Failure(EvalError::TypeMismatch),
                    Val::Bool(_) => EvalOutcome::Failure(EvalError::TypeMismatch),
                    Val::Closure { .. } => EvalOutcome::Failure(EvalError::TypeMismatch),
                },
                other => other,
            }
        },
        Term::Second(s) => {
            let v = eval(&s.value, scope, out, fuel);
            match v {
                EvalOutcome::Value(val) => match val {
                    Val::Tuple(pair) => EvalOutcome::Value(*pair.1),
                    Val::Str(_) => EvalOutcome::Failure(EvalError::TypeMismatch),
                    Val::Int(_) => EvalOutcome::Failure(EvalError::TypeMismatch),
                    Val::Bool(_) => EvalOutcome::Failure(EvalError::TypeMismatch),
                    Val::Closure { .. } => EvalOutcome::Failure(EvalError::TypeMismatch),
                },
                other => other,
            }
        },
        Term::If(c) => {
            let cv = eval(&c.condition, scope, out, fuel);
            match cv {
                EvalOutcome::Value(val) => match val {
                    Val::Bool(cond) => {
                        let r = if cond {
                            eval(&c.then_branch, scope, out, fuel)
                        } else {
                            eval(&c.otherwise, scope, out, fuel)
                        };
                        proof {
                            let ce = eval_spec(c.condition@, scope@, fuel as nat);
                            let be = if cond {
                                eval_spec(c.then_branch@, scope@, fuel as nat)
                            } else {
                                eval_spec(c.otherwise@, scope@, fuel as nat)
                            };
                            lemma_concat_associative(old(out)@, ce.output, be.output);
                        }
                        r
                    },
                    Val::Str(_) => EvalOutcome::Failure(EvalError::TypeMismatch),
                    Val::Int(_) => EvalOutcome::Failure(EvalError::TypeMismatch),
                    Val::Tuple(_) => EvalOutcome::Failure(EvalError::TypeMismatch),
                    Val::Closure { .. } => EvalOutcome::Failure(EvalError::TypeMismatch),
                },
                other => other,
            }
        },
        Term::Var(v) => match scope.get(v.text.as_str()) {
            Some(val) => EvalOutcome::Value(val),
            None => EvalOutcome::Failure(EvalError::UnboundVariable),
        },
        Term::Let(l) => {
            let bv = eval(&l.value, scope, out, fuel);
            match bv {
                EvalOutcome::Value(val) => {
                    let mut inner = scope.clone();
                    inner.set(l.name.text.clone(), val);
                    let r = eval(&l.next, &inner, out, fuel);
                    proof {
                        let ve = eval_spec(l.value@, scope@, fuel as nat);
                        let be = eval_spec(l.next@, inner@, fuel as nat);
                        lemma_concat_associative(old(out)@, ve.output, be.output);
                    }
                    r
                },
                other => other,
            }
        },
        Term::Function(f) => EvalOutcome::Value(
            Val::Closure { func: (**f).clone(), env: scope.clone() },
        ),
        Term::Call(c) => {
            let cv = eval(&c.callee, scope, out, fuel);
            proof {
                lemma_terms_view(c.arguments@);
            }
            match cv {
                EvalOutcome::Value(val) => match val {
                    Val::Closure { func, env } => {
                        if c.arguments.len() != func.parameters.len() {
                            EvalOutcome::Failure(EvalError::ArityMismatch)
                        } else {
                            proof {
                                assert(c.arguments@.skip(0) =~= c.arguments@);
                                assert(terms_view(c.arguments@).skip(0) =~= terms_view(
                                    c.arguments@,
                                ));
                            }
                            let av = eval_args(&c.arguments, 0, scope, out, fuel);
                            proof {
                                let ce = eval_spec(c.callee@, scope@, fuel as nat);
                                let ae = eval_args_spec(
                                    terms_view(c.arguments@),
                                    scope@,
                                    fuel as nat,
                                );
                                lemma_concat_associative(old(out)@, ce.output, ae.output);
                            }
                            match av {
                                ArgsExec::Values(vs) => {
                                    proof {
                                        lemma_eval_args_len(
                                            terms_view(c.arguments@),
                                            scope@,
                                            fuel as nat,
                                        );
                                        lemma_vals_view(vs@);
                                    }
                                    if fuel == 0 {
                                        EvalOutcome::Exhausted
                                    } else {
                                        let frame = bind_frame(env, &func.parameters, &vs);
                                        let r = eval(&func.value, &frame, out, fuel - 1);
                                        proof {
                                            let ce = eval_spec(c.callee@, scope@, fuel as nat);
                                            let ae = eval_args_spec(
                                                terms_view(c.arguments@),
                                                scope@,
                                                fuel as nat,
                                            );
                                            let be = eval_spec(
                                                func.value@,
                                                frame@,
                                                (fuel - 1) as nat,
                                            );
                                            lemma_concat_associative(
                                                old(out)@,
                                                ce.output,
                                                ae.output,
                                            );
                                            lemma_concat_associative(
                                                old(out)@,
                                                ce.output + ae.output,
                                                be.output,
                                            );
                                        }
                                        r
                                    }
                                },
                                ArgsExec::Failure(e) => EvalOutcome::Failure(e),
                                ArgsExec::Exhausted => EvalOutcome::Exhausted,
                            }
                        }
                    },
                    Val::Str(_) => EvalOutcome::Failure(EvalError::TypeMismatch),
                    Val::Int(_) => EvalOutcome::Failure(EvalError::TypeMismatch),
                    Val::Bool(_) => EvalOutcome::Failure(EvalError::TypeMismatch),
                    Val::Tuple(_) => EvalOutcome::Failure(EvalError::TypeMismatch),
                },
                other => other,
            }
        },
    }
}

/// Evaluates the arguments from position `idx` on, left to right in the
/// caller's environment, stopping at the first failure.
fn eval_args(args: &Vec<Term>, idx: usize, scope: &Scope, out: &mut Output, fuel: u64) -> (r:
    ArgsExec)
    requires
        idx <= args@.len(),
    ensures
        ({
            let ae = eval_args_spec(terms_view(args@).skip(idx as int), scope@, fuel as nat);
            args_exec_view(r) == ae.result && final(out)@ == old(out)@ + ae.output
        }),
    decreases fuel, args@.skip(idx as int),
{
    proof {
        lemma_terms_view(args@);
    }
    let ghost tv = terms_view(args@);
    let n = args.len();
    if idx == n {
        proof {
            assert(tv.skip(idx as int) =~= Seq::<TermV>::empty());
            assert(vals_view(Seq::<Val>::empty()) =~= Seq::<ValV>::empty());
        }
        ArgsExec::Values(Vec::new())
    } else {
        let ghost sub = tv.skip(idx as int);
        proof {
            assert(args@.skip(idx as int)[0] == args@[idx as int]);
            assert(sub[0] == term_view(args@[idx as int]));
            assert(sub.drop_first() =~= tv.skip(idx as int + 1));
            assert(args@.skip(idx as int).drop_first() =~= args@.skip(idx as int + 1));
        }
        let fe = eval(&args[idx], scope, out, fuel);
        match fe {
            EvalOutcome::Value(v) => {
                let rest = eval_args(args, idx + 1, scope, out, fuel);
                proof {
                    let fe_s = eval_spec(sub[0], scope@, fuel as nat);
                    let re_s = eval_args_spec(tv.skip(idx as int + 1), scope@, fuel as nat);
                    lemma_concat_associative(old(out)@, fe_s.output, re_s.output);
                }
                match rest {
                    ArgsExec::Values(mut vs) => {
                        let ghost prev = vs@;
                        vs.insert(0, v);
                        proof {
                            lemma_vals_view(vs@);
                            lemma_vals_view(prev);
                            prev.insert_ensures(0, v);
                            assert(vals_view(vs@) =~= seq![v@] + vals_view(prev));
                        }
                        ArgsExec::Values(vs)
                    },
                    other => other,
                }
            },
            EvalOutcome::Failure(e) => ArgsExec::Failure(e),
            EvalOutcome::Exhausted => ArgsExec::Exhausted,
        }
    }
}

/// Runs a whole program: evaluates its root expression in the empty root
/// environment, printing to `out`, with `fuel` bounding the call depth.
pub fn run(program: &Program, out: &mut Output, fuel: u64) -> (r: EvalOutcome)
    ensures
        ({
            let ev = eval_spec(program.expression@, Seq::empty(), fuel as nat);
            r@ == ev.result && final(out)@ == old(out)@ + ev.output
        }),
{
    let scope = Scope::empty();
    eval(&program.expression, &scope, out, fuel)
}

} // verus!
