//! The goal algebra: a first-order tree of composable constraints.
//!
//! A [`Goal`] describes a relationship between logic values.  Applying a
//! goal to a state either fails, extends the state, or defers work: a
//! disjunction queues a [`Fork`], and a projection that cannot decide yet
//! is filed in the state's watch index until one of its variables is
//! bound.
//!
//! Host-side derivations are drawn from small first-order function
//! languages ([`NumFn`], [`NumFn2`], [`Pred1`], [`Pred2`]) so that every
//! step of the engine is ordinary data.

use crate::value::{IntoVal, LVar, Val};
use std::rc::Rc;
use vstd::prelude::*;

verus! {

/// A derivation from one integer to another, used by the mapping
/// projections.  Arithmetic is checked: a derivation whose result does
/// not fit in an `i64` fails the branch that asked for it.
#[derive(Clone, Copy, PartialEq, Eq, Structural, Debug)]
pub enum NumFn {
    /// Add a constant.
    AddConst(i64),
    /// Subtract a constant.
    SubConst(i64),
    /// Multiply by a constant.
    MulConst(i64),
    /// Negate.
    Neg,
}

/// The mathematical result of a [`NumFn`], before the range check.
pub open spec fn num_fn_spec(f: NumFn, x: int) -> int {
    match f {
        NumFn::AddConst(k) => x + k,
        NumFn::SubConst(k) => x - k,
        NumFn::MulConst(k) => x * k,
        NumFn::Neg => -x,
    }
}

/// Apply a [`NumFn`], failing when the result leaves the `i64` range.
pub fn num_fn_apply(f: NumFn, x: i64) -> (r: Option<i64>)
    ensures
        match r {
            Some(y) => y == num_fn_spec(f, x as int),
            None => !(i64::MIN <= num_fn_spec(f, x as int) <= i64::MAX),
        },
{
    match f {
        NumFn::AddConst(k) => x.checked_add(k),
        NumFn::SubConst(k) => x.checked_sub(k),
        NumFn::MulConst(k) => x.checked_mul(k),
        NumFn::Neg => 0i64.checked_sub(x),
    }
}

/// A derivation from two integers to a third.
#[derive(Clone, Copy, PartialEq, Eq, Structural, Debug)]
pub enum NumFn2 {
    /// The sum of both arguments.
    Add,
    /// The first argument minus the second.
    Sub,
    /// The second argument minus the first.
    SubFrom,
    /// The product of both arguments.
    Mul,
}

/// The mathematical result of a [`NumFn2`], before the range check.
pub open spec fn num_fn2_spec(f: NumFn2, x: int, y: int) -> int {
    match f {
        NumFn2::Add => x + y,
        NumFn2::Sub => x - y,
        NumFn2::SubFrom => y - x,
        NumFn2::Mul => x * y,
    }
}

/// Apply a [`NumFn2`], failing when the result leaves the `i64` range.
pub fn num_fn2_apply(f: NumFn2, x: i64, y: i64) -> (r: Option<i64>)
    ensures
        match r {
            Some(z) => z == num_fn2_spec(f, x as int, y as int),
            None => !(i64::MIN <= num_fn2_spec(f, x as int, y as int) <= i64::MAX),
        },
{
    match f {
        NumFn2::Add => x.checked_add(y),
        NumFn2::Sub => x.checked_sub(y),
        NumFn2::SubFrom => y.checked_sub(x),
        NumFn2::Mul => x.checked_mul(y),
    }
}

/// A predicate over one integer, used by the assertion projections.
#[derive(Clone, Copy, PartialEq, Eq, Structural, Debug)]
pub enum Pred1 {
    /// Less than a constant.
    LtConst(i64),
    /// Greater than a constant.
    GtConst(i64),
    /// Equal to a constant.
    EqConst(i64),
}

/// The truth value of a [`Pred1`].
pub open spec fn pred1_spec(p: Pred1, x: int) -> bool {
    match p {
        Pred1::LtConst(k) => x < k,
        Pred1::GtConst(k) => x > k,
        Pred1::EqConst(k) => x == k,
    }
}

/// Evaluate a [`Pred1`].
pub fn pred1_apply(p: Pred1, x: i64) -> (r: bool)
    ensures
        r == pred1_spec(p, x as int),
{
    match p {
        Pred1::LtConst(k) => x < k,
        Pred1::GtConst(k) => x > k,
        Pred1::EqConst(k) => x == k,
    }
}

/// A predicate over two integers.
#[derive(Clone, Copy, PartialEq, Eq, Structural, Debug)]
pub enum Pred2 {
    /// Strictly less.
    Lt,
    /// Less or equal.
    Le,
    /// Equal.
    Eq,
    /// Unequal.
    Ne,
}

/// The truth value of a [`Pred2`].
pub open spec fn pred2_spec(p: Pred2, x: int, y: int) -> bool {
    match p {
        Pred2::Lt => x < y,
        Pred2::Le => x <= y,
        Pred2::Eq => x == y,
        Pred2::Ne => x != y,
    }
}

/// Evaluate a [`Pred2`].
pub fn pred2_apply(p: Pred2, x: i64, y: i64) -> (r: bool)
    ensures
        r == pred2_spec(p, x as int, y as int),
{
    match p {
        Pred2::Lt => x < y,
        Pred2::Le => x <= y,
        Pred2::Eq => x == y,
        Pred2::Ne => x != y,
    }
}

/// A goal builder from one resolved integer, used by `project_1`: the
/// derived integer is unified with the held target value.
#[derive(Clone, Copy, PartialEq, Eq, Structural, Debug)]
pub enum GoalFn1 {
    /// `|x| unify(f(x), target)` where the target is an `Int`
    /// constant; richer targets are reached through `map_1`.
    UnifyMapped(NumFn, i64),
}

/// A goal builder from two resolved integers, used by `project_2`.
#[derive(Clone, Copy, PartialEq, Eq, Structural, Debug)]
pub enum GoalFn2 {
    /// `|x, y| unify(f(x, y), target)`.
    UnifyMapped(NumFn2, i64),
}

/// A bidirectional mapping between two logic values: whichever side
/// resolves first is pushed through the matching derivation and unified
/// with the other side.
#[derive(Debug)]
pub struct Mapping {
    /// The first operand.
    pub a: Val,
    /// The second operand.
    pub b: Val,
    /// Derives `b` from a resolved `a`.
    pub a_to_b: NumFn,
    /// Derives `a` from a resolved `b`.
    pub b_to_a: NumFn,
}

impl Clone for Mapping {
    fn clone(&self) -> (r: Self)
        ensures
            r == *self,
    {
        Mapping {
            a: self.a.clone(),
            b: self.b.clone(),
            a_to_b: self.a_to_b,
            b_to_a: self.b_to_a,
        }
    }
}

impl Mapping {
    /// Derive the `b` side from a resolved `a` value.
    pub fn evaluate_a(&self, a: i64) -> (r: Option<i64>)
        ensures
            match r {
                Some(y) => y == num_fn_spec(self.a_to_b, a as int),
                None => !(i64::MIN <= num_fn_spec(self.a_to_b, a as int) <= i64::MAX),
            },
    {
        num_fn_apply(self.a_to_b, a)
    }

    /// Derive the `a` side from a resolved `b` value.
    pub fn evaluate_b(&self, b: i64) -> (r: Option<i64>)
        ensures
            match r {
                Some(x) => x == num_fn_spec(self.b_to_a, b as int),
                None => !(i64::MIN <= num_fn_spec(self.b_to_a, b as int) <= i64::MAX),
            },
    {
        num_fn_apply(self.b_to_a, b)
    }
}

/// A three-way mapping: as soon as any two operands resolve, the third
/// is derived and unified.
#[derive(Debug)]
pub struct Mapping2 {
    /// The first operand.
    pub a: Val,
    /// The second operand.
    pub b: Val,
    /// The third operand.
    pub c: Val,
    /// Derives `c` from resolved `a` and `b`.
    pub ab_to_c: NumFn2,
    /// Derives `b` from resolved `a` and `c`.
    pub ac_to_b: NumFn2,
    /// Derives `a` from resolved `b` and `c`.
    pub bc_to_a: NumFn2,
}

impl Clone for Mapping2 {
    fn clone(&self) -> (r: Self)
        ensures
            r == *self,
    {
        Mapping2 {
            a: self.a.clone(),
            b: self.b.clone(),
            c: self.c.clone(),
            ab_to_c: self.ab_to_c,
            ac_to_b: self.ac_to_b,
            bc_to_a: self.bc_to_a,
        }
    }
}

/// The element-of constraint: suspends until the collection resolves,
/// then forks one branch per element.
#[derive(Debug)]
pub struct Member {
    /// The candidate element.
    pub item: Val,
    /// The collection, possibly still a variable.
    pub collection: Val,
}

impl Clone for Member {
    fn clone(&self) -> (r: Self)
        ensures
            r == *self,
    {
        Member { item: self.item.clone(), collection: self.collection.clone() }
    }
}

/// A projection: a suspended computation that derives values between
/// resolved operands, waking when a watched variable is bound.
#[derive(Debug)]
pub enum Projection {
    /// Bidirectional mapping over two values.
    Map1(Mapping),
    /// Three-way mapping.
    Map2(Mapping2),
    /// A predicate over one resolved value.
    Assert1(Val, Pred1),
    /// A predicate over two resolved values.
    Assert2(Val, Val, Pred2),
    /// A goal derived from one resolved value.
    Project1(Val, GoalFn1),
    /// A goal derived from two resolved values.
    Project2(Val, Val, GoalFn2),
    /// The element-of constraint.
    Member(Member),
}

impl Clone for Projection {
    fn clone(&self) -> (r: Self)
        ensures
            r == *self,
    {
        match self {
            Projection::Map1(m) => Projection::Map1(m.clone()),
            Projection::Map2(m) => Projection::Map2(m.clone()),
            Projection::Assert1(a, p) => Projection::Assert1(a.clone(), *p),
            Projection::Assert2(a, b, p) => Projection::Assert2(a.clone(), b.clone(), *p),
            Projection::Project1(a, f) => Projection::Project1(a.clone(), *f),
            Projection::Project2(a, b, f) => Projection::Project2(a.clone(), b.clone(), *f),
            Projection::Member(m) => Projection::Member(m.clone()),
        }
    }
}

/// A deferred goal builder, invoked only when the goal is applied to a
/// state; this is what lets recursive relations terminate.
#[derive(Debug)]
pub enum Thunk {
    /// The relational list-append of the first two operands into the
    /// third, expanded one cons cell at a time.
    Append(Val, Val, Val),
}

impl Clone for Thunk {
    fn clone(&self) -> (r: Self)
        ensures
            r == *self,
    {
        match self {
            Thunk::Append(a, b, c) => Thunk::Append(a.clone(), b.clone(), c.clone()),
        }
    }
}

/// A composable description of a constraint over logic values.
#[derive(Debug)]
pub enum Goal {
    /// Assert that two values are equal.
    Unify(Val, Val),
    /// Both sub-goals must succeed; the second sees the first's state.
    Both(Rc<Goal>, Rc<Goal>),
    /// Every goal in the list must succeed, left to right.
    All(Rc<Vec<Goal>>),
    /// Either sub-goal may succeed; both branches are explored.
    Either(Rc<Goal>, Rc<Goal>),
    /// Any goal in the list may succeed; branches in declared order.
    Any(Rc<Vec<Goal>>),
    /// A goal built lazily when applied.
    Lazy(Thunk),
    /// A suspended projection.
    Project(Projection),
}

impl Clone for Goal {
    fn clone(&self) -> (r: Self)
        ensures
            r == *self,
    {
        match self {
            Goal::Unify(a, b) => Goal::Unify(a.clone(), b.clone()),
            Goal::Both(a, b) => Goal::Both(a.clone(), b.clone()),
            Goal::All(gs) => Goal::All(gs.clone()),
            Goal::Either(a, b) => Goal::Either(a.clone(), b.clone()),
            Goal::Any(gs) => Goal::Any(gs.clone()),
            Goal::Lazy(t) => Goal::Lazy(t.clone()),
            Goal::Project(p) => Goal::Project(p.clone()),
        }
    }
}

/// A deferred enumeration of alternative successor states: each branch
/// sees its own copy of the state, in declared order.
#[derive(Debug)]
pub enum Fork {
    /// One branch per listed goal, from `any`.
    Goals(Rc<Vec<Goal>>),
    /// Two branches, from `either`.
    Two(Rc<Goal>, Rc<Goal>),
    /// One branch per element of a resolved collection, each unifying
    /// the item with that element; from a woken `member`.
    Branches(Val, Rc<Vec<Val>>),
    /// The two branches of the relational append: the base case, and
    /// the decomposition into a first element and the rest.
    Append(Val, Val, Val),
}

impl Clone for Fork {
    fn clone(&self) -> (r: Self)
        ensures
            r == *self,
    {
        match self {
            Fork::Goals(gs) => Fork::Goals(gs.clone()),
            Fork::Two(a, b) => Fork::Two(a.clone(), b.clone()),
            Fork::Branches(item, es) => Fork::Branches(item.clone(), es.clone()),
            Fork::Append(a, b, c) => Fork::Append(a.clone(), b.clone(), c.clone()),
        }
    }
}

/// The variable ids a watch depends on; a projection mentions at most
/// three variables.
#[derive(Clone, Copy, PartialEq, Eq, Structural, Debug)]
pub enum WatchIds {
    /// One watched variable.
    One(u64),
    /// Two watched variables.
    Two(u64, u64),
    /// Three watched variables.
    Three(u64, u64, u64),
}

/// The watched ids in filing order.
pub open spec fn watch_ids_seq(ids: WatchIds) -> Seq<u64> {
    match ids {
        WatchIds::One(a) => seq![a],
        WatchIds::Two(a, b) => seq![a, b],
        WatchIds::Three(a, b, c) => seq![a, b, c],
    }
}

/// The watched ids as a vector, in filing order.
pub fn watch_ids_vec(ids: WatchIds) -> (r: Vec<u64>)
    ensures
        r@ == watch_ids_seq(ids),
{
    match ids {
        WatchIds::One(a) => vec![a],
        WatchIds::Two(a, b) => vec![a, b],
        WatchIds::Three(a, b, c) => vec![a, b, c],
    }
}

/// A suspended watch as stored in the watch table: the projection to
/// re-run together with the full set of variable ids it is filed under.
#[derive(Debug)]
pub struct WatchEntry {
    /// The suspended projection.
    pub proj: Projection,
    /// Every variable id this watch is indexed under.
    pub ids: WatchIds,
}

impl Clone for WatchEntry {
    fn clone(&self) -> (r: Self)
        ensures
            r == *self,
    {
        WatchEntry { proj: self.proj.clone(), ids: self.ids }
    }
}

/// Create a goal asserting that two values are equal.
pub fn unify<A: IntoVal, B: IntoVal>(a: A, b: B) -> (r: Goal)
    ensures
        r == Goal::Unify(a.into_val_spec(), b.into_val_spec()),
{
    Goal::Unify(a.into_val(), b.into_val())
}

/// Create a goal asserting that two values are equal.
pub fn equal<A: IntoVal, B: IntoVal>(a: A, b: B) -> (r: Goal)
    ensures
        r == Goal::Unify(a.into_val_spec(), b.into_val_spec()),
{
    Goal::Unify(a.into_val(), b.into_val())
}

/// Create a goal that succeeds only if both sub-goals succeed.  If the
/// first fails, the second is never attempted.
pub fn both(a: Goal, b: Goal) -> (r: Goal)
    ensures
        r == Goal::Both(Rc::new(a), Rc::new(b)),
{
    Goal::Both(Rc::new(a), Rc::new(b))
}

/// Create a goal that succeeds only if every listed goal succeeds,
/// applied left to right.
pub fn all(goals: Vec<Goal>) -> (r: Goal)
    ensures
        r == Goal::All(Rc::new(goals)),
{
    Goal::All(Rc::new(goals))
}

/// Create a goal that forks the search: both sub-goals see the same
/// state, and answers come in declared order.
pub fn either(a: Goal, b: Goal) -> (r: Goal)
    ensures
        r == Goal::Either(Rc::new(a), Rc::new(b)),
{
    Goal::Either(Rc::new(a), Rc::new(b))
}

/// Create a goal that forks the search over every listed goal.
pub fn any(goals: Vec<Goal>) -> (r: Goal)
    ensures
        r == Goal::Any(Rc::new(goals)),
{
    Goal::Any(Rc::new(goals))
}

/// Create a goal whose body is built only when it is applied.
pub fn lazy(t: Thunk) -> (r: Goal)
    ensures
        r == Goal::Lazy(t),
{
    Goal::Lazy(t)
}

/// Create a projection goal deriving each of two values from the other.
/// Whichever operand resolves first is used to derive the other.
pub fn map_1<A: IntoVal, B: IntoVal>(a: A, b: B, a_to_b: NumFn, b_to_a: NumFn) -> (r: Goal)
    ensures
        r == Goal::Project(
            Projection::Map1(
                Mapping { a: a.into_val_spec(), b: b.into_val_spec(), a_to_b, b_to_a },
            ),
        ),
{
    Goal::Project(Projection::Map1(Mapping { a: a.into_val(), b: b.into_val(), a_to_b, b_to_a }))
}

/// Create a projection goal relating three values: as soon as any two
/// resolve, the third is derived and unified.
pub fn map_2<A: IntoVal, B: IntoVal, C: IntoVal>(
    a: A,
    b: B,
    c: C,
    ab_to_c: NumFn2,
    ac_to_b: NumFn2,
    bc_to_a: NumFn2,
) -> (r: Goal)
    ensures
        r == Goal::Project(
            Projection::Map2(
                Mapping2 {
                    a: a.into_val_spec(),
                    b: b.into_val_spec(),
                    c: c.into_val_spec(),
                    ab_to_c,
                    ac_to_b,
                    bc_to_a,
                },
            ),
        ),
{
    Goal::Project(
        Projection::Map2(
            Mapping2 {
                a: a.into_val(),
                b: b.into_val(),
                c: c.into_val(),
                ab_to_c,
                ac_to_b,
                bc_to_a,
            },
        ),
    )
}

/// Create a projection goal that succeeds once its operand resolves to
/// an integer satisfying the predicate.
pub fn assert_1<A: IntoVal>(a: A, p: Pred1) -> (r: Goal)
    ensures
        r == Goal::Project(Projection::Assert1(a.into_val_spec(), p)),
{
    Goal::Project(Projection::Assert1(a.into_val(), p))
}

/// Create a projection goal that succeeds once both operands resolve to
/// integers satisfying the predicate.
pub fn assert_2<A: IntoVal, B: IntoVal>(a: A, b: B, p: Pred2) -> (r: Goal)
    ensures
        r == Goal::Project(Projection::Assert2(a.into_val_spec(), b.into_val_spec(), p)),
{
    Goal::Project(Projection::Assert2(a.into_val(), b.into_val(), p))
}

/// Create a projection goal that, once its operand resolves, applies the
/// goal built from the resolved value.
pub fn project_1<A: IntoVal>(a: A, f: GoalFn1) -> (r: Goal)
    ensures
        r == Goal::Project(Projection::Project1(a.into_val_spec(), f)),
{
    Goal::Project(Projection::Project1(a.into_val(), f))
}

/// Create a projection goal that waits for both operands and applies the
/// goal built from the two resolved values.
pub fn project_2<A: IntoVal, B: IntoVal>(a: A, b: B, f: GoalFn2) -> (r: Goal)
    ensures
        r == Goal::Project(Projection::Project2(a.into_val_spec(), b.into_val_spec(), f)),
{
    Goal::Project(Projection::Project2(a.into_val(), b.into_val(), f))
}

/// Create the element-of goal: unify `item` with any element of the
/// collection, one branch per element in declared order.  The goal
/// suspends until the collection resolves.
pub fn member<I: IntoVal, C: IntoVal>(item: I, collection: C) -> (r: Goal)
    ensures
        r == Goal::Project(
            Projection::Member(
                Member {
                    item: item.into_val_spec(),
                    collection: collection.into_val_spec(),
                },
            ),
        ),
{
    Goal::Project(
        Projection::Member(Member { item: item.into_val(), collection: collection.into_val() }),
    )
}

/// Create the relational list-append goal over cons lists: `a` appended
/// to `b` yields `c`.  Defined by disjunction, unification and lazy
/// recursion, so any of the three operands may be unknown.
pub fn append<A: IntoVal, B: IntoVal, C: IntoVal>(a: A, b: B, c: C) -> (r: Goal)
    ensures
        r == Goal::Lazy(
            Thunk::Append(a.into_val_spec(), b.into_val_spec(), c.into_val_spec()),
        ),
{
    Goal::Lazy(Thunk::Append(a.into_val(), b.into_val(), c.into_val()))
}

} // verus!
