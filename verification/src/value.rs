//! Logic variables and logic values.
//!
//! A [`LVar`] is an identity token standing for an unknown.  A [`Val`] is
//! either such an unresolved variable or a resolved value: an integer, a
//! string, a cons pair, a sequence, or the empty list marker.  Resolved
//! payloads are held behind shared references so that values can flow
//! through many states of the search tree without being duplicated.

use std::rc::Rc;
use vstd::prelude::*;

verus! {

/// A logic variable: a placeholder awaiting a value.
///
/// Equality uses only the id.  Ids are expected to be unique within one
/// program; [`crate::value::LVarSource`] hands them out monotonically.
#[derive(Clone, Copy, PartialEq, Eq, Structural, Debug)]
pub struct LVar {
    /// The unique identity of this variable.
    pub id: u64,
}

/// A logic value: an unresolved variable or a resolved, immutable payload.
#[derive(Debug)]
pub enum Val {
    /// An unresolved placeholder.
    Var(LVar),
    /// A resolved integer.
    Int(i64),
    /// A resolved string.
    Str(Rc<String>),
    /// A resolved cons cell; relational lists are chains of pairs ending
    /// in `Nil`.
    Pair(Rc<Val>, Rc<Val>),
    /// A resolved sequence whose elements may themselves be unresolved.
    Vec(Rc<Vec<Val>>),
    /// The empty-list marker closing a chain of pairs.
    Nil,
}

impl Clone for Val {
    /// Cloning copies the handle, never the payload.
    fn clone(&self) -> (r: Self)
        ensures
            r == *self,
    {
        match self {
            Val::Var(v) => Val::Var(*v),
            Val::Int(i) => Val::Int(*i),
            Val::Str(s) => Val::Str(s.clone()),
            Val::Pair(l, rr) => Val::Pair(l.clone(), rr.clone()),
            Val::Vec(s) => Val::Vec(s.clone()),
            Val::Nil => Val::Nil,
        }
    }
}

impl Val {
    /// A value is resolved when it is anything but a variable.
    pub fn resolved(&self) -> (r: Result<&Val, LVar>)
        ensures
            match r {
                Ok(v) => !(*self is Var) && *v == *self,
                Err(x) => *self == Val::Var(x),
            },
    {
        match self {
            Val::Var(x) => Err(*x),
            other => Ok(other),
        }
    }
}

/// A value is ground when no variable occurs anywhere inside it.
pub open spec fn is_ground(v: Val) -> bool
    decreases v,
{
    match v {
        Val::Var(_) => false,
        Val::Int(_) => true,
        Val::Str(_) => true,
        Val::Nil => true,
        Val::Pair(l, r) => is_ground(*l) && is_ground(*r),
        Val::Vec(s) => forall|i: int| 0 <= i < s@.len() ==> is_ground(#[trigger] s@[i]),
    }
}

/// Structural likeness: equality of the trees, with sequence payloads
/// compared by contents and strings by characters.
pub open spec fn val_like(a: Val, b: Val) -> bool
    decreases a,
{
    match a {
        Val::Var(x) => b == Val::Var(x),
        Val::Int(i) => b == Val::Int(i),
        Val::Str(sa) => b matches Val::Str(sb) && sa@ == sb@,
        Val::Nil => b == Val::Nil,
        Val::Pair(la, ra) => b matches Val::Pair(lb, rb) && val_like(*la, *lb) && val_like(
            *ra,
            *rb,
        ),
        Val::Vec(ea) => b matches Val::Vec(eb) && ea@.len() == eb@.len() && (forall|i: int|
            0 <= i < ea@.len() ==> val_like(#[trigger] ea@[i], eb@[i])),
    }
}

/// Whether a value is ground, decided by walking it.
#[verifier::loop_isolation(false)]
pub fn is_ground_val(v: &Val) -> (r: bool)
    ensures
        r == is_ground(*v),
    decreases *v,
{
    match v {
        Val::Var(_) => false,
        Val::Int(_) => true,
        Val::Str(_) => true,
        Val::Nil => true,
        Val::Pair(l, r) => is_ground_val(l) && is_ground_val(r),
        Val::Vec(es) => {
            let mut i: usize = 0;
            while i < es.len()
                invariant
                    i <= es.len(),
                    forall|j: int| 0 <= j < i as int ==> is_ground(#[trigger] es@[j]),
                decreases es.len() - i,
            {
                if !is_ground_val(&es[i]) {
                    proof {
                        assert(!is_ground(*v)) by {
                            assert(0 <= (i as int) && (i as int) < es@.len() && !is_ground(
                                es@[i as int],
                            ));
                        }
                    }
                    return false;
                }
                i = i + 1;
            }
            true
        },
    }
}

/// Decide structural likeness of two values.
#[verifier::loop_isolation(false)]
fn val_eq(a: &Val, b: &Val) -> (r: bool)
    ensures
        r == val_like(*a, *b),
    decreases *a,
{
    match (a, b) {
        (Val::Var(x), Val::Var(y)) => x.id == y.id,
        (Val::Int(x), Val::Int(y)) => x == y,
        (Val::Str(x), Val::Str(y)) => **x == **y,
        (Val::Nil, Val::Nil) => true,
        (Val::Pair(la, ra), Val::Pair(lb, rb)) => val_eq(la, lb) && val_eq(ra, rb),
        (Val::Vec(ea), Val::Vec(eb)) => {
            if ea.len() != eb.len() {
                return false;
            }
            let mut i: usize = 0;
            while i < ea.len()
                invariant
                    i <= ea.len(),
                    forall|j: int| 0 <= j < i as int ==> val_like(#[trigger] ea@[j], eb@[j]),
                decreases ea.len() - i,
            {
                if !val_eq(&ea[i], &eb[i]) {
                    proof {
                        assert(!val_like(*a, *b)) by {
                            assert(0 <= (i as int) && (i as int) < ea@.len() && !val_like(
                                ea@[i as int],
                                eb@[i as int],
                            ));
                        }
                    }
                    return false;
                }
                i = i + 1;
            }
            true
        },
        _ => false,
    }
}

impl PartialEq for Val {
    /// Two values are equal when they are the same variable or equal
    /// resolved trees.
    fn eq(&self, other: &Val) -> bool {
        val_eq(self, other)
    }
}

impl vstd::std_specs::cmp::PartialEqSpecImpl for Val {
    open spec fn obeys_eq_spec() -> bool {
        true
    }

    open spec fn eq_spec(&self, other: &Val) -> bool {
        val_like(*self, *other)
    }
}

/// The cons cell holding `l` and `r`.
pub open spec fn pair_val_spec(l: Val, r: Val) -> Val {
    Val::Pair(std::rc::Rc::new(l), std::rc::Rc::new(r))
}

/// Build the cons cell holding `l` and `r`.
pub fn pair_val(l: Val, r: Val) -> (p: Val)
    ensures
        p == pair_val_spec(l, r),
{
    Val::Pair(std::rc::Rc::new(l), std::rc::Rc::new(r))
}

/// Build a sequence value from a vector of element values.
pub fn vec_val(es: Vec<Val>) -> (v: Val)
    ensures
        v matches Val::Vec(rc) && rc@ == es@,
{
    Val::Vec(std::rc::Rc::new(es))
}

/// Build a string value.
pub fn str_val(s: String) -> (v: Val)
    ensures
        v matches Val::Str(rc) && rc@ == s@,
{
    Val::Str(std::rc::Rc::new(s))
}

/// Conversion of ordinary values and variables into logic values.
pub trait IntoVal {
    /// The logic value this conversion yields.
    spec fn into_val_spec(self) -> Val;

    /// Wrap `self` as a logic value.
    fn into_val(self) -> (r: Val)
        ensures
            r == self.into_val_spec(),
    ;
}

impl IntoVal for i64 {
    open spec fn into_val_spec(self) -> Val {
        Val::Int(self)
    }

    fn into_val(self) -> (r: Val)
        ensures
            r == Val::Int(self),
    {
        Val::Int(self)
    }
}

impl IntoVal for Val {
    open spec fn into_val_spec(self) -> Val {
        self
    }

    fn into_val(self) -> (r: Val)
        ensures
            r == self,
    {
        self
    }
}

impl IntoVal for &Val {
    open spec fn into_val_spec(self) -> Val {
        *self
    }

    fn into_val(self) -> (r: Val)
        ensures
            r == *self,
    {
        self.clone()
    }
}

impl IntoVal for LVar {
    open spec fn into_val_spec(self) -> Val {
        Val::Var(self)
    }

    fn into_val(self) -> (r: Val)
        ensures
            r == Val::Var(self),
    {
        Val::Var(self)
    }
}

impl LVar {
    /// Lift this variable into a logic value.
    pub fn into_val(&self) -> (r: Val)
        ensures
            r == Val::Var(*self),
    {
        Val::Var(*self)
    }
}

/// A source of fresh logic variables.
///
/// Ids are handed out monotonically, so two variables drawn from the same
/// source are always distinct.
pub struct LVarSource {
    next: u64,
}

impl LVarSource {
    /// The id the source will hand out next.
    pub closed spec fn next_id(self) -> u64 {
        self.next
    }

    /// A source whose first variable has id 0.
    pub fn new() -> (r: Self)
        ensures
            r.next_id() == 0,
    {
        LVarSource { next: 0 }
    }

    /// The watermark: every id below it may already be in use.
    pub fn peek(&self) -> (r: u64)
        ensures
            r == self.next_id(),
    {
        self.next
    }

    /// Draw a fresh variable, distinct from every one drawn before.
    pub fn fresh(&mut self) -> (r: LVar)
        requires
            old(self).next_id() < u64::MAX,
        ensures
            r.id == old(self).next_id(),
            final(self).next_id() == old(self).next_id() + 1,
    {
        let id = self.next;
        self.next = self.next + 1;
        LVar { id }
    }
}

} // verus!
