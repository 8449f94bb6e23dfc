//! The term language: an immutable abstract syntax tree supplied by an
//! external parser, plus its mathematical model (`TermV`), a ghost datatype
//! over `int` and `Seq<char>` that all contracts speak of.

use vstd::prelude::*;

verus! {

/// Operator tag of a binary expression; pure and stateless.
#[derive(Clone, Copy, PartialEq, Eq, Structural, Debug)]
pub enum BinaryOperator {
    Add,
    Sub,
    Mul,
    Div,
    Rem,
    Eq,
    Neq,
    Lt,
    Gt,
    Lte,
    Gte,
    And,
    Or,
}

/// An integer literal node.
#[derive(Debug)]
pub struct Int {
    pub value: i32,
}

/// A string literal node.
#[derive(Debug)]
pub struct Str {
    pub value: String,
}

/// A boolean literal node.
#[derive(Debug)]
pub struct Bool {
    pub value: bool,
}

/// A print expression: evaluates its child, emits its rendering, and
/// yields the child's value.
#[derive(Debug)]
pub struct Print {
    pub value: Term,
}

/// A two-component tuple constructor.
#[derive(Debug)]
pub struct Tuple {
    pub first: Term,
    pub second: Term,
}

/// Projection of the first component of a tuple.
#[derive(Debug)]
pub struct First {
    pub value: Term,
}

/// Projection of the second component of a tuple.
#[derive(Debug)]
pub struct Second {
    pub value: Term,
}

/// A conditional: exactly one branch is evaluated.
#[derive(Debug)]
pub struct If {
    pub condition: Term,
    pub then_branch: Term,
    pub otherwise: Term,
}

/// A variable reference, resolved against the lexical environment.
#[derive(Debug)]
pub struct Var {
    pub text: String,
}

/// A function literal; evaluating it captures the current environment.
#[derive(Debug)]
pub struct Function {
    pub parameters: Vec<Parameter>,
    pub value: Term,
}

/// A let binding: `value` is evaluated with `name` not yet bound, and
/// `next` is evaluated with `name` bound to that result.
#[derive(Debug)]
pub struct Let {
    pub name: Parameter,
    pub value: Term,
    pub next: Term,
}

/// A parameter name.
#[derive(Debug)]
pub struct Parameter {
    pub text: String,
}

/// A function application.
#[derive(Debug)]
pub struct Call {
    pub callee: Term,
    pub arguments: Vec<Term>,
}

/// A binary operation; both operands are always evaluated, left first.
#[derive(Debug)]
pub struct Binary {
    pub lhs: Term,
    pub op: BinaryOperator,
    pub rhs: Term,
}

/// One node of the evaluated language.
#[derive(Debug)]
pub enum Term {
    Int(Int),
    Str(Str),
    Bool(Bool),
    Binary(Box<Binary>),
    Print(Box<Print>),
    Tuple(Box<Tuple>),
    First(Box<First>),
    Second(Box<Second>),
    Var(Var),
    Call(Box<Call>),
    Function(Box<Function>),
    Let(Box<Let>),
    If(Box<If>),
}

/// A whole program: a diagnostic name (never evaluated) and a root
/// expression, evaluated in an empty environment.
#[derive(Debug)]
pub struct Program {
    pub name: String,
    pub expression: Term,
}

/// The mathematical model of a term, over `int` and `Seq<char>`.
pub enum TermV {
    Int(int),
    Str(Seq<char>),
    Bool(bool),
    Binary(BinaryOperator, Box<TermV>, Box<TermV>),
    Print(Box<TermV>),
    Tuple(Box<TermV>, Box<TermV>),
    First(Box<TermV>),
    Second(Box<TermV>),
    Var(Seq<char>),
    Call(Box<TermV>, Seq<TermV>),
    Function(Seq<Seq<char>>, Box<TermV>),
    Let(Seq<char>, Box<TermV>, Box<TermV>),
    If(Box<TermV>, Box<TermV>, Box<TermV>),
}

/// The model of a parameter list: the sequence of its names.
pub open spec fn params_view(ps: Seq<Parameter>) -> Seq<Seq<char>> {
    ps.map_values(|p: Parameter| p.text@)
}

/// The model of a term.
pub open spec fn term_view(t: Term) -> TermV
    decreases t,
{
    match t {
        Term::Int(n) => TermV::Int(n.value as int),
        Term::Str(s) => TermV::Str(s.value@),
        Term::Bool(b) => TermV::Bool(b.value),
        Term::Binary(b) => TermV::Binary(
            b.op,
            Box::new(term_view(b.lhs)),
            Box::new(term_view(b.rhs)),
        ),
        Term::Print(p) => TermV::Print(Box::new(term_view(p.value))),
        Term::Tuple(t2) => TermV::Tuple(
            Box::new(term_view(t2.first)),
            Box::new(term_view(t2.second)),
        ),
        Term::First(f) => TermV::First(Box::new(term_view(f.value))),
        Term::Second(s) => TermV::Second(Box::new(term_view(s.value))),
        Term::Var(v) => TermV::Var(v.text@),
        Term::Call(c) => TermV::Call(Box::new(term_view(c.callee)), terms_view(c.arguments@)),
        Term::Function(f) => TermV::Function(
            params_view(f.parameters@),
            Box::new(term_view(f.value)),
        ),
        Term::Let(l) => TermV::Let(
            l.name.text@,
            Box::new(term_view(l.value)),
            Box::new(term_view(l.next)),
        ),
        Term::If(i) => TermV::If(
            Box::new(term_view(i.condition)),
            Box::new(term_view(i.then_branch)),
            Box::new(term_view(i.otherwise)),
        ),
    }
}

/// The model of a sequence of terms, element by element.
pub open spec fn terms_view(ts: Seq<Term>) -> Seq<TermV>
    decreases ts,
{
    if ts.len() == 0 {
        Seq::empty()
    } else {
        terms_view(ts.drop_last()).push(term_view(ts.last()))
    }
}

impl View for Term {
    type V = TermV;

    open spec fn view(&self) -> TermV {
        term_view(*self)
    }
}

impl Clone for Parameter {
    /// A copy with the same name.
    fn clone(&self) -> (r: Self)
        ensures
            r.text@ == self.text@,
    {
        Parameter { text: self.text.clone() }
    }
}

/// Deep-copies a parameter list, keeping its sequence of names.
fn clone_params(ps: &Vec<Parameter>) -> (r: Vec<Parameter>)
    ensures
        params_view(r@) == params_view(ps@),
{
    let mut r: Vec<Parameter> = Vec::new();
    let n = ps.len();
    let mut i: usize = 0;
    while i < n
        invariant
            i <= n,
            n == ps@.len(),
            r@.len() == i,
            forall|j: int| 0 <= j < i ==> r@[j].text@ == ps@[j].text@,
        decreases n - i,
    {
        r.push(ps[i].clone());
        i = i + 1;
    }
    proof {
        assert(params_view(r@) =~= params_view(ps@));
    }
    r
}

/// Deep-copies a sequence of terms, keeping its model.
fn clone_terms(ts: &Vec<Term>) -> (r: Vec<Term>)
    ensures
        terms_view(r@) == terms_view(ts@),
    decreases ts@,
{
    let mut r: Vec<Term> = Vec::new();
    let n = ts.len();
    let mut i: usize = 0;
    while i < n
        invariant
            i <= n,
            n == ts@.len(),
            r@.len() == i,
            forall|j: int| 0 <= j < i ==> term_view(r@[j]) == term_view(ts@[j]),
        decreases n - i,
    {
        r.push(ts[i].clone());
        i = i + 1;
    }
    proof {
        lemma_terms_view(r@);
        lemma_terms_view(ts@);
        assert(terms_view(r@) =~= terms_view(ts@));
    }
    r
}

impl Clone for Term {
    /// A deep copy: the copy has the same model as the original.
    fn clone(&self) -> (r: Self)
        ensures
            r@ == self@,
        decreases *self,
    {
        match self {
            Term::Int(n) => Term::Int(Int { value: n.value }),
            Term::Str(s) => Term::Str(Str { value: s.value.clone() }),
            Term::Bool(b) => Term::Bool(Bool { value: b.value }),
            Term::Binary(b) => Term::Binary(Box::new(Binary {
                lhs: b.lhs.clone(),
                op: b.op,
                rhs: b.rhs.clone(),
            })),
            Term::Print(p) => Term::Print(Box::new(Print { value: p.value.clone() })),
            Term::Tuple(t) => Term::Tuple(Box::new(Tuple {
                first: t.first.clone(),
                second: t.second.clone(),
            })),
            Term::First(f) => Term::First(Box::new(First { value: f.value.clone() })),
            Term::Second(s) => Term::Second(Box::new(Second { value: s.value.clone() })),
            Term::Var(v) => Term::Var(Var { text: v.text.clone() }),
            Term::Call(c) => Term::Call(Box::new(Call {
                callee: c.callee.clone(),
                arguments: clone_terms(&c.arguments),
            })),
            Term::Function(f) => Term::Function(Box::new(Function {
                parameters: clone_params(&f.parameters),
                value: f.value.clone(),
            })),
            Term::Let(l) => Term::Let(Box::new(Let {
                name: l.name.clone(),
                value: l.value.clone(),
                next: l.next.clone(),
            })),
            Term::If(i) => Term::If(Box::new(If {
                condition: i.condition.clone(),
                then_branch: i.then_branch.clone(),
                otherwise: i.otherwise.clone(),
            })),
        }
    }
}

impl Clone for Function {
    /// A deep copy: parameter names and body keep their models.
    fn clone(&self) -> (r: Self)
        ensures
            params_view(r.parameters@) == params_view(self.parameters@),
            r.value@ == self.value@,
    {
        Function { parameters: clone_params(&self.parameters), value: self.value.clone() }
    }
}

/// `terms_view` maps `term_view` over the sequence position by position.
pub proof fn lemma_terms_view(ts: Seq<Term>)
    ensures
        terms_view(ts).len() == ts.len(),
        forall|i: int| 0 <= i < ts.len() ==> terms_view(ts)[i] == term_view(ts[i]),
    decreases ts,
{
    if ts.len() > 0 {
        lemma_terms_view(ts.drop_last());
    }
}

} // verus!
