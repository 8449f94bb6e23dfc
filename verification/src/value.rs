//! Runtime values and the lexical environment.
//!
//! A `Scope` is modelled as the sequence of its bindings, innermost last;
//! lookup walks from the innermost binding outward.  Scopes are persistent:
//! extending one never changes what an already-captured scope contains, so a
//! closure keeps seeing exactly the bindings visible at its creation.

use vstd::prelude::*;
use crate::ast::{Function, TermV, term_view, params_view};
use crate::text::str_eq;

verus! {

/// A fully evaluated runtime result.
#[derive(Debug)]
pub enum Val {
    Str(String),
    Int(i32),
    Bool(bool),
    Tuple((Box<Val>, Box<Val>)),
    Closure { func: Function, env: Scope },
}

/// One name-to-value binding of a scope.
#[derive(Debug)]
pub struct Binding {
    pub name: String,
    pub val: Val,
}

/// A lexical environment: its bindings in order of introduction, the
/// innermost (most recently bound, and therefore shadowing) one last.
#[derive(Debug)]
pub struct Scope {
    pub bindings: Vec<Binding>,
}

/// The mathematical model of a value.
pub enum ValV {
    Str(Seq<char>),
    Int(int),
    Bool(bool),
    Tuple(Box<ValV>, Box<ValV>),
    Closure { params: Seq<Seq<char>>, body: Box<TermV>, env: Seq<BindingV> },
}

/// The model of one binding.
pub struct BindingV {
    pub name: Seq<char>,
    pub val: ValV,
}

/// The model of a value.
pub open spec fn val_view(v: Val) -> ValV
    decreases v,
{
    match v {
        Val::Str(s) => ValV::Str(s@),
        Val::Int(i) => ValV::Int(i as int),
        Val::Bool(b) => ValV::Bool(b),
        Val::Tuple(pair) => ValV::Tuple(
            Box::new(val_view(*pair.0)),
            Box::new(val_view(*pair.1)),
        ),
        Val::Closure { func, env } => ValV::Closure {
            params: params_view(func.parameters@),
            body: Box::new(term_view(func.value)),
            env: scope_view(env),
        },
    }
}

/// The model of a scope: the sequence of its binding models.
pub open spec fn scope_view(s: Scope) -> Seq<BindingV>
    decreases s,
{
    bindings_view(s.bindings@)
}

/// The model of a sequence of bindings, element by element.
pub open spec fn bindings_view(bs: Seq<Binding>) -> Seq<BindingV>
    decreases bs,
{
    if bs.len() == 0 {
        Seq::empty()
    } else {
        bindings_view(bs.drop_last()).push(
            BindingV { name: bs.last().name@, val: val_view(bs.last().val) },
        )
    }
}

impl View for Val {
    type V = ValV;

    open spec fn view(&self) -> ValV {
        val_view(*self)
    }
}

impl View for Scope {
    type V = Seq<BindingV>;

    open spec fn view(&self) -> Seq<BindingV> {
        scope_view(*self)
    }
}

/// `bindings_view` maps the binding model over the sequence position by
/// position.
pub proof fn lemma_bindings_view(bs: Seq<Binding>)
    ensures
        bindings_view(bs).len() == bs.len(),
        forall|i: int| 0 <= i < bs.len() ==> bindings_view(bs)[i]
            == (BindingV { name: bs[i].name@, val: val_view(bs[i].val) }),
    decreases bs,
{
    if bs.len() > 0 {
        lemma_bindings_view(bs.drop_last());
    }
}

/// The model of a sequence of values, element by element.
pub open spec fn vals_view(vs: Seq<Val>) -> Seq<ValV>
    decreases vs,
{
    if vs.len() == 0 {
        Seq::empty()
    } else {
        vals_view(vs.drop_last()).push(val_view(vs.last()))
    }
}

/// `vals_view` maps the value model over the sequence position by position.
pub proof fn lemma_vals_view(vs: Seq<Val>)
    ensures
        vals_view(vs).len() == vs.len(),
        forall|i: int| 0 <= i < vs.len() ==> vals_view(vs)[i] == val_view(vs[i]),
    decreases vs,
{
    if vs.len() > 0 {
        lemma_vals_view(vs.drop_last());
    }
}

/// The nearest enclosing binding of `name`: the last binding of that name,
/// or `None` if the name is bound nowhere in the environment.
pub open spec fn lookup(env: Seq<BindingV>, name: Seq<char>) -> Option<ValV>
    decreases env,
{
    if env.len() == 0 {
        None
    } else if env.last().name == name {
        Some(env.last().val)
    } else {
        lookup(env.drop_last(), name)
    }
}

impl Clone for Val {
    /// A deep copy: the copy has the same model as the original.
    fn clone(&self) -> (r: Self)
        ensures
            r@ == self@,
        decreases *self,
    {
        match self {
            Val::Str(s) => Val::Str(s.clone()),
            Val::Int(i) => Val::Int(*i),
            Val::Bool(b) => Val::Bool(*b),
            Val::Tuple(pair) => Val::Tuple((
                Box::new((&*pair.0).clone()),
                Box::new((&*pair.1).clone()),
            )),
            Val::Closure { func, env } => Val::Closure { func: func.clone(), env: env.clone() },
        }
    }
}

impl Clone for Binding {
    /// A deep copy: name and value keep their models.
    fn clone(&self) -> (r: Self)
        ensures
            r.name@ == self.name@,
            r.val@ == self.val@,
        decreases *self,
    {
        Binding { name: self.name.clone(), val: self.val.clone() }
    }
}

/// Deep-copies a sequence of bindings.
fn clone_bindings(bs: &Vec<Binding>) -> (r: Vec<Binding>)
    ensures
        bindings_view(r@) == bindings_view(bs@),
    decreases bs@,
{
    let mut r: Vec<Binding> = Vec::new();
    let n = bs.len();
    let mut i: usize = 0;
    while i < n
        invariant
            i <= n,
            n == bs@.len(),
            r@.len() == i,
            forall|j: int| 0 <= j < i ==> r@[j].name@ == bs@[j].name@
                && r@[j].val@ == bs@[j].val@,
        decreases n - i,
    {
        r.push(bs[i].clone());
        i = i + 1;
    }
    proof {
        lemma_bindings_view(r@);
        lemma_bindings_view(bs@);
        assert(bindings_view(r@) =~= bindings_view(bs@));
    }
    r
}

impl Clone for Scope {
    /// A deep copy of the environment: the copy contains the same bindings
    /// in the same order, so the copy and the original resolve every name
    /// alike, and extending one never affects the other.
    fn clone(&self) -> (r: Self)
        ensures
            r@ == self@,
        decreases *self,
    {
        Scope { bindings: clone_bindings(&self.bindings) }
    }
}

impl Scope {
    /// A scope with no bindings at all: the root environment.
    pub fn empty() -> (s: Scope)
        ensures
            s@ == Seq::<BindingV>::empty(),
    {
        Scope { bindings: Vec::new() }
    }

    /// Resolves `var` to its nearest enclosing binding, walking the scope
    /// from the innermost binding outward.
    pub fn get(&self, var: &str) -> (r: Option<Val>)
        ensures
            match r {
                Some(v) => lookup(self@, var@) == Some(v@),
                None => lookup(self@, var@) == None::<ValV>,
            },
    {
        let n = self.bindings.len();
        let mut i: usize = n;
        proof {
            lemma_bindings_view(self.bindings@);
            assert(self@.take(n as int) =~= self@);
        }
        while i > 0
            invariant
                i <= n,
                n == self.bindings@.len(),
                self@ == bindings_view(self.bindings@),
                bindings_view(self.bindings@).len() == n,
                forall|j: int| 0 <= j < n ==> bindings_view(self.bindings@)[j]
                    == (BindingV {
                        name: self.bindings@[j].name@,
                        val: val_view(self.bindings@[j].val),
                    }),
                lookup(self@, var@) == lookup(self@.take(i as int), var@),
            decreases i,
        {
            let idx = i - 1;
            proof {
                assert(self@.take(idx + 1).drop_last() =~= self@.take(idx as int));
                assert(self@.take(idx + 1).last() == self@[idx as int]);
            }
            if str_eq(self.bindings[idx].name.as_str(), var) {
                return Some(self.bindings[idx].val.clone());
            }
            i = idx;
        }
        proof {
            assert(self@.take(0) =~= Seq::<BindingV>::empty());
        }
        None
    }

    /// Layers the binding `var -> val` over the existing ones; the new
    /// binding shadows any earlier binding of the same name.
    pub fn set(&mut self, var: String, val: Val)
        ensures
            final(self)@ == old(self)@.push(BindingV { name: var@, val: val@ }),
    {
        let ghost old_bs = self.bindings@;
        let ghost name_v = var@;
        let ghost val_v = val@;
        self.bindings.push(Binding { name: var, val });
        proof {
            assert(self.bindings@.drop_last() =~= old_bs);
            assert(self@ =~= bindings_view(old_bs).push(BindingV { name: name_v, val: val_v }));
        }
    }
}

} // verus!
