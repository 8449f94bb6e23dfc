//! General properties of the semantics, each proved for all inputs its
//! statement allows: the division/remainder identity and sign convention,
//! division by zero, the stringify-on-mismatch rule of addition, closure
//! capture, shadowing, tuple projection, and the arity check.

use vstd::prelude::*;
use vstd::math::abs;
use crate::ast::{BinaryOperator, TermV};
use crate::value::{ValV, BindingV, lookup};
use crate::render::render;
use crate::semantics::{
    EvalError, Outcome, ArgsOutcome, Evaluation, value_only, int_result, fits_i32,
    trunc_div, trunc_rem, apply_op, eval_spec, eval_args_spec, bind_params,
};

verus! {

broadcast use vstd::seq_lib::group_seq_lib_default;

/// The defining facts of truncating division and remainder: quotient times
/// divisor plus remainder restores the dividend, the remainder's magnitude
/// stays under the divisor's, and the remainder carries the dividend's
/// sign or is zero.
proof fn lemma_trunc_characterization(a: int, b: int)
    requires
        b != 0,
    ensures
        b * trunc_div(a, b) + trunc_rem(a, b) == a,
        abs(trunc_rem(a, b)) < abs(b),
        trunc_rem(a, b) == 0 || ((trunc_rem(a, b) < 0) <==> (a < 0)),
        abs(trunc_div(a, b)) * abs(b) <= abs(a),
{
    let aa = abs(a) as int;
    let ab = abs(b) as int;
    vstd::arithmetic::div_mod::lemma_fundamental_div_mod(aa, ab);
    vstd::arithmetic::div_mod::lemma_mod_bound(aa, ab);
    let q = aa / ab;
    let r = aa % ab;
    assert(aa == ab * q + r);
    assert(b * trunc_div(a, b) + trunc_rem(a, b) == a);
    assert(q >= 0) by (nonlinear_arith)
        requires
            q == aa / ab,
            aa >= 0,
            ab >= 1,
    ;
    assert(if a < 0 {
        trunc_rem(a, b) == -r
    } else {
        trunc_rem(a, b) == r
    }) by (nonlinear_arith)
        requires
            trunc_rem(a, b) == a - b * trunc_div(a, b),
            trunc_div(a, b) == if (a < 0) == (b < 0) {
                aa / ab
            } else {
                -(aa / ab)
            },
            aa == abs(a),
            ab == abs(b),
            (a < 0) ==> a == -aa,
            (a >= 0) ==> a == aa,
            (b < 0) ==> b == -ab,
            (b >= 0) ==> b == ab,
            q == aa / ab,
            aa == ab * q + r,
    ;
    assert(abs(trunc_div(a, b)) == q);
    assert(q * ab <= aa) by (nonlinear_arith)
        requires
            aa == ab * q + r,
            r >= 0,
            q >= 0,
            ab >= 1,
    ;
}

/// When both operands fit in 32 bits, so do the truncating quotient and
/// remainder — apart from the single quotient that overflows.
proof fn lemma_trunc_fits(a: int, b: int)
    requires
        fits_i32(a),
        fits_i32(b),
        b != 0,
        !(a == i32::MIN && b == -1),
    ensures
        fits_i32(trunc_div(a, b)),
        fits_i32(trunc_rem(a, b)),
{
    let aa = abs(a) as int;
    let ab = abs(b) as int;
    vstd::arithmetic::div_mod::lemma_fundamental_div_mod(aa, ab);
    vstd::arithmetic::div_mod::lemma_mod_bound(aa, ab);
    let q = aa / ab;
    assert(q >= 0 && q <= aa) by (nonlinear_arith)
        requires
            q == aa / ab,
            aa >= 0,
            ab >= 1,
    ;
    if aa == 0x8000_0000 && (a < 0) == (b < 0) {
        assert(a == i32::MIN && b < 0);
        assert(ab >= 2);
        assert(q <= aa / 2) by (nonlinear_arith)
            requires
                q == aa / ab,
                aa >= 0,
                ab >= 2,
        ;
    }
    lemma_trunc_characterization(a, b);
}

/// For all 32-bit integers `a`, `b` with `b` nonzero — apart from the one
/// pair whose quotient overflows 32 bits — `a / b` and `a % b` evaluate to
/// the truncating quotient and remainder: quotient times divisor plus
/// remainder is `a`, the remainder's magnitude stays under `b`'s, and the
/// remainder has the sign of `a` or is zero, the native truncating
/// convention.  Neither evaluation prints anything.
#[verifier::rlimit(60)]
pub proof fn lemma_div_rem_identity(a: i32, b: i32, env: Seq<BindingV>, fuel: nat)
    requires
        b != 0,
        !(a == i32::MIN && b == -1),
    ensures
        ({
            let d = eval_spec(
                TermV::Binary(
                    BinaryOperator::Div,
                    Box::new(TermV::Int(a as int)),
                    Box::new(TermV::Int(b as int)),
                ),
                env,
                fuel,
            );
            let r = eval_spec(
                TermV::Binary(
                    BinaryOperator::Rem,
                    Box::new(TermV::Int(a as int)),
                    Box::new(TermV::Int(b as int)),
                ),
                env,
                fuel,
            );
            let q = trunc_div(a as int, b as int);
            let m = trunc_rem(a as int, b as int);
            d.result == Outcome::Value(ValV::Int(q)) && r.result == Outcome::Value(ValV::Int(m))
                && q * b + m == a && abs(m) < abs(b as int) && (m == 0 || ((m < 0) <==> (a < 0)))
                && d.output.len() == 0 && r.output.len() == 0
        }),
{
    lemma_eval_binary_int_literals(BinaryOperator::Div, a as int, b as int, env, fuel);
    lemma_eval_binary_int_literals(BinaryOperator::Rem, a as int, b as int, env, fuel);
    lemma_trunc_characterization(a as int, b as int);
    lemma_trunc_fits(a as int, b as int);
    let q = trunc_div(a as int, b as int);
    vstd::arithmetic::mul::lemma_mul_is_commutative(q, b as int);
}

/// A binary operation on two integer literals comes straight from the
/// operator rule table, and prints nothing.
pub proof fn lemma_eval_binary_int_literals(
    op: BinaryOperator,
    a: int,
    b: int,
    env: Seq<BindingV>,
    fuel: nat,
)
    ensures
        eval_spec(
            TermV::Binary(op, Box::new(TermV::Int(a)), Box::new(TermV::Int(b))),
            env,
            fuel,
        ) == (Evaluation {
            result: apply_op(op, ValV::Int(a), ValV::Int(b)),
            output: Seq::<Seq<char>>::empty(),
        }),
{
    reveal_with_fuel(eval_spec, 2);
    assert(Seq::<Seq<char>>::empty() + Seq::<Seq<char>>::empty() =~= Seq::<Seq<char>>::empty());
}

/// Dividing by the integer literal zero always yields the
/// division-by-zero failure, never a value, whenever the dividend
/// evaluates to an integer; nothing beyond the dividend's own output is
/// printed.
pub proof fn lemma_div_by_zero(lhs: TermV, env: Seq<BindingV>, fuel: nat)
    requires
        eval_spec(lhs, env, fuel).result matches Outcome::Value(ValV::Int(_)),
    ensures
        ({
            let d = eval_spec(
                TermV::Binary(BinaryOperator::Div, Box::new(lhs), Box::new(TermV::Int(0))),
                env,
                fuel,
            );
            d.result == Outcome::Failure(EvalError::DivisionByZero) && d.output == eval_spec(
                lhs,
                env,
                fuel,
            ).output
        }),
{
    reveal_with_fuel(eval_spec, 2);
}

/// Addition of two expressions that evaluate to values: two integers add
/// (or overflow); any other combination yields the string made of both
/// operands' renderings, concatenated in order.
pub proof fn lemma_add_semantics(lt: TermV, rt: TermV, x: ValV, y: ValV, env: Seq<BindingV>, fuel: nat)
    requires
        eval_spec(lt, env, fuel).result == Outcome::Value(x),
        eval_spec(rt, env, fuel).result == Outcome::Value(y),
    ensures
        ({
            let s = eval_spec(
                TermV::Binary(BinaryOperator::Add, Box::new(lt), Box::new(rt)),
                env,
                fuel,
            );
            s.output == eval_spec(lt, env, fuel).output + eval_spec(rt, env, fuel).output
                && match (x, y) {
                (ValV::Int(i), ValV::Int(j)) => s.result == int_result(i + j),
                _ => s.result == Outcome::Value(ValV::Str(render(x) + render(y))),
            }
        }),
{
    reveal_with_fuel(eval_spec, 1);
}

/// Evaluating a function literal captures exactly the current
/// environment — the bindings in scope at the definition point — and
/// prints nothing.
pub proof fn lemma_function_captures_env(
    params: Seq<Seq<char>>,
    body: TermV,
    env: Seq<BindingV>,
    fuel: nat,
)
    ensures
        eval_spec(TermV::Function(params, Box::new(body)), env, fuel) == value_only(
            ValV::Closure { params, body: Box::new(body), env },
        ),
{
    reveal_with_fuel(eval_spec, 1);
}

/// A call runs the closure's body in the captured environment extended
/// with just the parameters: the caller's own scope — including bindings
/// introduced after the closure was created — plays no part.
pub proof fn lemma_call_uses_captured_env(
    callee: TermV,
    args: Seq<TermV>,
    params: Seq<Seq<char>>,
    body: TermV,
    cenv: Seq<BindingV>,
    vs: Seq<ValV>,
    env: Seq<BindingV>,
    fuel: nat,
)
    requires
        fuel > 0,
        eval_spec(callee, env, fuel).result == Outcome::Value(
            ValV::Closure { params, body: Box::new(body), env: cenv },
        ),
        args.len() == params.len(),
        eval_args_spec(args, env, fuel).result == ArgsOutcome::Values(vs),
    ensures
        eval_spec(TermV::Call(Box::new(callee), args), env, fuel).result == eval_spec(
            body,
            bind_params(cenv, params, vs),
            (fuel - 1) as nat,
        ).result,
{
    reveal_with_fuel(eval_spec, 1);
}

/// A let binding evaluates its body in the current environment extended
/// with just the new binding — the environment itself is never changed,
/// so closures created earlier keep their captured bindings untouched.
pub proof fn lemma_let_extends(
    name: Seq<char>,
    vterm: TermV,
    body: TermV,
    v: ValV,
    env: Seq<BindingV>,
    fuel: nat,
)
    requires
        eval_spec(vterm, env, fuel).result == Outcome::Value(v),
    ensures
        ({
            let le = eval_spec(TermV::Let(name, Box::new(vterm), Box::new(body)), env, fuel);
            let be = eval_spec(body, env.push(BindingV { name, val: v }), fuel);
            le.result == be.result && le.output == eval_spec(vterm, env, fuel).output + be.output
        }),
{
    reveal_with_fuel(eval_spec, 1);
}

/// A name bound neither among a call frame's parameters nor in the
/// closure's captured environment is unbound inside the frame — however
/// the caller's scope binds it.
pub proof fn lemma_unbound_in_call_frame(
    cenv: Seq<BindingV>,
    ps: Seq<Seq<char>>,
    vs: Seq<ValV>,
    m: Seq<char>,
)
    requires
        ps.len() == vs.len(),
        lookup(cenv, m) == None::<ValV>,
        forall|i: int| 0 <= i < ps.len() ==> ps[i] != m,
    ensures
        lookup(bind_params(cenv, ps, vs), m) == None::<ValV>,
    decreases ps.len(),
{
    if ps.len() > 0 {
        let extended = cenv.push(BindingV { name: ps[0], val: vs[0] });
        assert(extended.drop_last() =~= cenv);
        assert(lookup(extended, m) == None::<ValV>);
        assert(forall|i: int| 0 <= i < ps.drop_first().len() ==> ps.drop_first()[i] != m);
        lemma_unbound_in_call_frame(extended, ps.drop_first(), vs.drop_first(), m);
    }
}

/// The innermost binding wins: after binding a name twice, lookup finds
/// the later value.
pub proof fn lemma_shadowing_lookup(env: Seq<BindingV>, name: Seq<char>, v1: ValV, v2: ValV)
    ensures
        lookup(
            env.push(BindingV { name, val: v1 }).push(BindingV { name, val: v2 }),
            name,
        ) == Some(v2),
{
}

/// `let x = a in let x = b in x` evaluates to `b`; and a sibling
/// expression that does not go through the inner binding still sees the
/// outer one: with `x` bound to `a` outside, the pair
/// `(let x = b in x, x)` evaluates to `(b, a)`.
pub proof fn lemma_shadowing_eval(x: Seq<char>, a: int, b: int, env: Seq<BindingV>, fuel: nat)
    ensures
        eval_spec(
            TermV::Let(
                x,
                Box::new(TermV::Int(a)),
                Box::new(
                    TermV::Let(x, Box::new(TermV::Int(b)), Box::new(TermV::Var(x))),
                ),
            ),
            env,
            fuel,
        ).result == Outcome::Value(ValV::Int(b)),
        eval_spec(
            TermV::Tuple(
                Box::new(
                    TermV::Let(x, Box::new(TermV::Int(b)), Box::new(TermV::Var(x))),
                ),
                Box::new(TermV::Var(x)),
            ),
            env.push(BindingV { name: x, val: ValV::Int(a) }),
            fuel,
        ).result == Outcome::Value(
            ValV::Tuple(Box::new(ValV::Int(b)), Box::new(ValV::Int(a))),
        ),
{
    reveal_with_fuel(eval_spec, 4);
}

/// Tuple round-trip: projecting the first (second) component of a tuple
/// of two value-producing expressions yields the first (second) value.
pub proof fn lemma_tuple_round_trip(
    at: TermV,
    bt: TermV,
    a: ValV,
    b: ValV,
    env: Seq<BindingV>,
    fuel: nat,
)
    requires
        eval_spec(at, env, fuel).result == Outcome::Value(a),
        eval_spec(bt, env, fuel).result == Outcome::Value(b),
    ensures
        eval_spec(
            TermV::First(Box::new(TermV::Tuple(Box::new(at), Box::new(bt)))),
            env,
            fuel,
        ).result == Outcome::Value(a),
        eval_spec(
            TermV::Second(Box::new(TermV::Tuple(Box::new(at), Box::new(bt)))),
            env,
            fuel,
        ).result == Outcome::Value(b),
{
    reveal_with_fuel(eval_spec, 2);
}

/// The arity check: calling a closure with the wrong number of arguments
/// yields the arity-mismatch failure before the arguments or the body are
/// touched — nothing beyond the callee's own output is printed, whatever
/// the body would do.
pub proof fn lemma_arity_mismatch(
    callee: TermV,
    args: Seq<TermV>,
    params: Seq<Seq<char>>,
    body: TermV,
    cenv: Seq<BindingV>,
    env: Seq<BindingV>,
    fuel: nat,
)
    requires
        eval_spec(callee, env, fuel).result == Outcome::Value(
            ValV::Closure { params, body: Box::new(body), env: cenv },
        ),
        args.len() != params.len(),
    ensures
        ({
            let cl = eval_spec(TermV::Call(Box::new(callee), args), env, fuel);
            cl.result == Outcome::Failure(EvalError::ArityMismatch) && cl.output == eval_spec(
                callee,
                env,
                fuel,
            ).output
        }),
{
    reveal_with_fuel(eval_spec, 1);
}

} // verus!
