//! The state of one branch of the search: value bindings, suspended
//! watches, and deferred forks.
//!
//! A state owns a substitution (variable id to bound value), a watch
//! index pairing a table of suspended projections with an index from
//! variable id to the watches that mention it, and an ordered queue of
//! forks.  States are persistent: every update returns a new value that
//! shares most of its structure with the original, so sibling branches
//! of the search never observe each other's changes.

use crate::goal::{Fork, WatchEntry};
use crate::store::{
    binding_entries, bindings_clone, bindings_get, bindings_insert, bindings_len, bindings_new,
    index_clone, index_entries, index_new, no_bindings, no_index_entries, no_table_entries,
    queue_clone, queue_entries, queue_new, table_clone, table_entries, table_new, ForkQueue,
    Subst, WatchIndex, WatchTable,
};
use crate::value::{LVar, Val};
use vstd::prelude::*;

verus! {

/// The error raised when resolution runs into a substitution cycle,
/// which can arise because unification performs no occurs check.
#[derive(Clone, Copy, PartialEq, Eq, Structural, Debug)]
pub enum UnifyError {
    /// Resolving the named variable would never terminate.
    InfiniteRecursion(LVar),
}

/// The mathematical content of a [`State`].
#[verifier::ext_equal]
pub struct StateV {
    /// The substitution: variable id to bound value.
    pub values: Map<u64, Val>,
    /// Variable id to the ids of the watches filed under it.
    pub watch_index: Map<u64, Seq<u64>>,
    /// Watch id to the stored watch record.
    pub watch_table: Map<u64, WatchEntry>,
    /// The next watch id to hand out.
    pub next_watch: u64,
    /// Deferred forks, oldest first.
    pub forks: Seq<Fork>,
    /// The next variable id free for internal use.
    pub next_var: u64,
}

/// The content of a freshly created state whose internal variables
/// start at `base`.
pub open spec fn empty_state_v(base: u64) -> StateV {
    StateV {
        values: no_bindings(),
        watch_index: no_index_entries(),
        watch_table: no_table_entries(),
        next_watch: 0,
        forks: Seq::empty(),
        next_var: base,
    }
}

/// The core struct used to contain and manage value bindings during
/// goal application.
pub struct State {
    pub(crate) values: Subst,
    pub(crate) watch_index: WatchIndex,
    pub(crate) watch_table: WatchTable,
    pub(crate) next_watch: u64,
    pub(crate) forks: ForkQueue,
    pub(crate) next_var: u64,
}

impl View for State {
    type V = StateV;

    open(crate) spec fn view(&self) -> StateV {
        StateV {
            values: binding_entries(self.values),
            watch_index: index_entries(self.watch_index),
            watch_table: table_entries(self.watch_table),
            next_watch: self.next_watch,
            forks: queue_entries(self.forks),
            next_var: self.next_var,
        }
    }
}

impl Clone for State {
    /// Cloning shares structure; the copy has the same content and the
    /// original is never affected by updates to the copy.
    fn clone(&self) -> (r: Self)
        ensures
            r@ == self@,
    {
        State {
            values: bindings_clone(&self.values),
            watch_index: index_clone(&self.watch_index),
            watch_table: table_clone(&self.watch_table),
            next_watch: self.next_watch,
            forks: queue_clone(&self.forks),
            next_var: self.next_var,
        }
    }
}

/// One step of the substitution chase: a bound variable becomes the
/// value it maps to, anything else is returned unchanged.
pub open spec fn one_step(m: Map<u64, Val>, v: Val) -> Val {
    match v {
        Val::Var(x) => if m.dom().contains(x.id) {
            m[x.id]
        } else {
            v
        },
        _ => v,
    }
}

/// The full substitution chase with a step budget: follow variable
/// links until a resolved value or an unbound variable appears.  `None`
/// means the budget ran out, which with a budget of the substitution's
/// size can only happen on a cycle of variable links.
pub open spec fn sp_walk(m: Map<u64, Val>, v: Val, n: nat) -> Option<Val>
    decreases n,
{
    match v {
        Val::Var(x) => if m.dom().contains(x.id) {
            if n == 0 {
                None
            } else {
                sp_walk(m, m[x.id], (n - 1) as nat)
            }
        } else {
            Some(v)
        },
        _ => Some(v),
    }
}

/// Whether `r` is the deep resolution of `v` under `m`: every variable
/// chased through the substitution, recursively through pairs and
/// sequences, with unbound variables left in place.  The budget bounds
/// the variable chases along any one path.
pub open spec fn sp_resolves(m: Map<u64, Val>, v: Val, r: Val, n: nat) -> bool
    decreases n, v,
{
    match v {
        Val::Var(x) => if m.dom().contains(x.id) {
            n > 0 && sp_resolves(m, m[x.id], r, (n - 1) as nat)
        } else {
            r == v
        },
        Val::Pair(a, b) => r matches Val::Pair(ra, rb) && sp_resolves(m, *a, *ra, n)
            && sp_resolves(m, *b, *rb, n),
        Val::Vec(es) => r matches Val::Vec(rs) && rs@.len() == es@.len() && (forall|i: int|
            0 <= i < es@.len() ==> sp_resolves(m, es@[i], #[trigger] rs@[i], n)),
        _ => r == v,
    }
}

/// The structural weight that lets resolution recurse from a sequence
/// value into its elements: one more than the element count.
pub open spec fn vec_len_plus(v: Val) -> int {
    match v {
        Val::Vec(es) => es@.len() as int + 1,
        _ => 0,
    }
}

/// The variable at which budgeted deep resolution of `v` under `m`
/// gives out, on the leftmost, depth-first failing path: the variable
/// reached when that path's chase budget hits zero.  `None` when every
/// path resolves within budget.
pub open spec fn sp_resolve_err(m: Map<u64, Val>, v: Val, n: nat) -> Option<LVar>
    decreases n, v, vec_len_plus(v),
{
    match v {
        Val::Var(x) => if m.dom().contains(x.id) {
            if n == 0 {
                Some(x)
            } else {
                sp_resolve_err(m, m[x.id], (n - 1) as nat)
            }
        } else {
            None
        },
        Val::Pair(a, b) => if sp_resolve_err(m, *a, n) is Some {
            sp_resolve_err(m, *a, n)
        } else {
            sp_resolve_err(m, *b, n)
        },
        Val::Vec(es) => sp_resolve_err_elems(m, v, 0, n),
        _ => None,
    }
}

/// The first element of the sequence value `parent`, from position `i`
/// on, whose resolution gives out, and the variable it reports.
pub open spec fn sp_resolve_err_elems(m: Map<u64, Val>, parent: Val, i: int, n: nat) -> Option<
    LVar,
>
    decreases n, parent, (parent->Vec_0)@.len() - i,
{
    match parent {
        Val::Vec(rc) => {
            if 0 <= i < rc@.len() {
                if sp_resolve_err(m, rc@[i], n) is Some {
                    sp_resolve_err(m, rc@[i], n)
                } else {
                    sp_resolve_err_elems(m, parent, i + 1, n)
                }
            } else {
                None
            }
        },
        _ => None,
    }
}

/// Whether deep resolution of `v` under `m` runs out of budget on some
/// path; with a budget of the substitution's size this means the
/// substitution has a cycle reachable from `v`.
pub open spec fn sp_resolve_fails(m: Map<u64, Val>, v: Val, n: nat) -> bool {
    sp_resolve_err(m, v, n) is Some
}

/// The budget that makes the chase exact: one step per binding.
pub open spec fn chase_budget(m: Map<u64, Val>) -> nat {
    m.dom().len()
}

/// The left component of a cons cell.
pub open spec fn pair_first(v: Val) -> Val {
    *(v->Pair_0)
}

/// The right component of a cons cell.
pub open spec fn pair_second(v: Val) -> Val {
    *(v->Pair_1)
}

/// The value a reference points at, for handing borrowed values to
/// proof functions.
pub open spec fn deref_val(v: &Val) -> Val {
    *v
}

/// Sequence elements that all resolve within budget report no
/// variable.
proof fn lemma_err_elems_none(m: Map<u64, Val>, parent: Val, i: int, n: nat)
    requires
        parent is Vec,
        forall|j: int|
            i <= j < (parent->Vec_0)@.len() ==> sp_resolve_err(
                m,
                #[trigger] (parent->Vec_0)@[j],
                n,
            ) is None,
    ensures
        sp_resolve_err_elems(m, parent, i, n) is None,
    decreases (parent->Vec_0)@.len() - i,
{
    if 0 <= i < (parent->Vec_0)@.len() {
        lemma_err_elems_none(m, parent, i + 1, n);
    }
}

/// Skipping leading elements that resolve does not change the
/// reported variable.
proof fn lemma_err_elems_skip(m: Map<u64, Val>, parent: Val, k: int, n: nat)
    requires
        parent is Vec,
        0 <= k <= (parent->Vec_0)@.len(),
        forall|j: int|
            0 <= j < k ==> sp_resolve_err(m, #[trigger] (parent->Vec_0)@[j], n) is None,
    ensures
        sp_resolve_err_elems(m, parent, 0, n) == sp_resolve_err_elems(m, parent, k, n),
    decreases k,
{
    if k > 0 {
        lemma_err_elems_skip(m, parent, k - 1, n);
    }
}

/// Resolution cannot both produce a value and run out of budget: a
/// value that resolves has no failing chase inside its derivation.
pub proof fn lemma_resolve_exclusive(m: Map<u64, Val>, v: Val, r: Val, n: nat)
    requires
        sp_resolves(m, v, r, n),
    ensures
        !sp_resolve_fails(m, v, n),
    decreases n, v,
{
    match v {
        Val::Var(x) => {
            if m.dom().contains(x.id) {
                lemma_resolve_exclusive(m, m[x.id], r, (n - 1) as nat);
            }
        },
        Val::Pair(a, b) => {
            lemma_resolve_exclusive(m, pair_first(v), pair_first(r), n);
            lemma_resolve_exclusive(m, pair_second(v), pair_second(r), n);
        },
        Val::Vec(es) => {
            let rs = r->Vec_0;
            assert forall|i: int| 0 <= i < es@.len() implies sp_resolve_err(
                m,
                #[trigger] es@[i],
                n,
            ) is None by {
                lemma_resolve_exclusive(m, es@[i], rs@[i], n);
            }
            lemma_err_elems_none(m, v, 0, n);
        },
        _ => {},
    }
}

/// Resolution is deterministic up to structural likeness: two results
/// of resolving the same value under the same substitution are the
/// same tree.
pub proof fn lemma_resolve_deterministic(m: Map<u64, Val>, v: Val, r1: Val, r2: Val, n: nat)
    requires
        sp_resolves(m, v, r1, n),
        sp_resolves(m, v, r2, n),
    ensures
        crate::value::val_like(r1, r2),
    decreases n, v,
{
    match v {
        Val::Var(x) => {
            if m.dom().contains(x.id) {
                lemma_resolve_deterministic(m, m[x.id], r1, r2, (n - 1) as nat);
            }
        },
        Val::Pair(a, b) => {
            lemma_resolve_deterministic(m, pair_first(v), pair_first(r1), pair_first(r2), n);
            lemma_resolve_deterministic(m, pair_second(v), pair_second(r1), pair_second(r2), n);
        },
        Val::Vec(es) => {
            let rs1 = r1->Vec_0;
            let rs2 = r2->Vec_0;
            assert forall|i: int| 0 <= i < rs1@.len() implies crate::value::val_like(
                #[trigger] rs1@[i],
                rs2@[i],
            ) by {
                lemma_resolve_deterministic(m, es@[i], rs1@[i], rs2@[i], n);
            }
        },
        _ => {},
    }
}

/// Structural likeness preserves groundness.
pub proof fn lemma_like_ground(a: Val, b: Val)
    requires
        crate::value::val_like(a, b),
    ensures
        crate::value::is_ground(a) == crate::value::is_ground(b),
    decreases a,
{
    match a {
        Val::Pair(la, ra) => {
            lemma_like_ground(pair_first(a), pair_first(b));
            lemma_like_ground(pair_second(a), pair_second(b));
        },
        Val::Vec(ea) => {
            let eb = b->Vec_0;
            assert forall|i: int| 0 <= i < ea@.len() implies crate::value::is_ground(
                #[trigger] ea@[i],
            ) == crate::value::is_ground(eb@[i]) by {
                lemma_like_ground(ea@[i], eb@[i]);
            }
            if crate::value::is_ground(a) {
                assert forall|i: int| 0 <= i < eb@.len() implies crate::value::is_ground(
                    #[trigger] eb@[i],
                ) by {
                    assert(crate::value::is_ground(ea@[i]));
                }
                assert(crate::value::is_ground(b));
            }
            if crate::value::is_ground(b) {
                assert forall|i: int| 0 <= i < ea@.len() implies crate::value::is_ground(
                    #[trigger] ea@[i],
                ) by {
                    assert(crate::value::is_ground(eb@[i]));
                }
                assert(crate::value::is_ground(a));
            }
        },
        _ => {},
    }
}

impl State {
    /// Feed this state through a state transformer, for chains that
    /// thread `Option` through several updates.
    pub fn apply<F: FnOnce(Self) -> Option<Self>>(self, func: F) -> (r: Option<Self>)
        requires
            call_requires(func, (self,)),
        ensures
            call_ensures(func, (self,), r),
    {
        func(self)
    }

    /// An empty state: no bindings, no watches, no forks.
    pub fn new() -> (r: Self)
        ensures
            r@ == empty_state_v(0),
    {
        Self::new_at(0)
    }

    /// An empty state whose internally allocated variables start at
    /// `base`; goals applied to it should only mention variables below
    /// `base`.
    pub fn new_at(base: u64) -> (r: Self)
        ensures
            r@ == empty_state_v(base),
    {
        State {
            values: bindings_new(),
            watch_index: index_new(),
            watch_table: table_new(),
            next_watch: 0,
            forks: queue_new(),
            next_var: base,
        }
    }

    /// Bind `var` to `val`, without consulting the watch index.  This
    /// is the raw substitution update; [`State::unify`] is the safe
    /// entry that resolves both sides first and wakes watches.
    pub fn assign(&self, var: LVar, val: Val) -> (r: Self)
        ensures
            r@ == (StateV { values: self@.values.insert(var.id, val), ..self@ }),
    {
        let mut values = bindings_clone(&self.values);
        bindings_insert(&mut values, var.id, val);
        State {
            values,
            watch_index: index_clone(&self.watch_index),
            watch_table: table_clone(&self.watch_table),
            next_watch: self.next_watch,
            forks: queue_clone(&self.forks),
            next_var: self.next_var,
        }
    }

    /// The single-step chase: if `val` is a variable with a binding,
    /// the bound value; otherwise `val` itself.  Callers who want the
    /// deepest reachable value call again, or use [`State::resolve`].
    pub fn resolve_val<'r>(&'r self, val: &'r Val) -> (r: &'r Val)
        ensures
            *r == one_step(self@.values, *val),
    {
        match val {
            Val::Var(x) => match bindings_get(&self.values, x.id) {
                Some(w) => w,
                None => val,
            },
            _ => val,
        }
    }

    /// Look a variable up in the substitution: the bound value when it
    /// is resolved, or the rightmost variable reached in one step.
    pub fn get(&self, var: LVar) -> (r: Result<&Val, LVar>)
        ensures
            match r {
                Ok(v) => self@.values.dom().contains(var.id) && *v == self@.values[var.id]
                    && !(self@.values[var.id] is Var),
                Err(x) => if self@.values.dom().contains(var.id) {
                    self@.values[var.id] == Val::Var(x)
                } else {
                    x == var
                },
            },
    {
        match bindings_get(&self.values, var.id) {
            Some(v) => v.resolved(),
            None => Err(var),
        }
    }

    /// Append a fork to the queue; it is never run here, only when the
    /// state is drained.  Always succeeds.
    pub fn fork(self, f: Fork) -> (r: Option<Self>)
        ensures
            match r {
                Some(s) => s@ == (StateV { forks: self@.forks.push(f), ..self@ }),
                None => false,
            },
    {
        let mut s = self;
        crate::store::queue_push_back(&mut s.forks, f);
        Some(s)
    }

    /// The full chase of variable links for `val`: the first resolved
    /// value or unbound variable reached.  `None` only on a cycle of
    /// variable links.
    pub(crate) fn walk<'r>(&'r self, val: &'r Val) -> (r: Option<&'r Val>)
        ensures
            match r {
                Some(w) => sp_walk(self@.values, *val, chase_budget(self@.values)) == Some(*w),
                None => sp_walk(self@.values, *val, chase_budget(self@.values)) is None,
            },
    {
        let budget = bindings_len(&self.values);
        self.walk_from(val, budget)
    }

    fn walk_from<'r>(&'r self, val: &'r Val, budget: usize) -> (r: Option<&'r Val>)
        ensures
            match r {
                Some(w) => sp_walk(self@.values, *val, budget as nat) == Some(*w),
                None => sp_walk(self@.values, *val, budget as nat) is None,
            },
        decreases budget,
    {
        match val {
            Val::Var(x) => match bindings_get(&self.values, x.id) {
                Some(w) => if budget == 0 {
                    None
                } else {
                    self.walk_from(w, budget - 1)
                },
                None => Some(val),
            },
            _ => Some(val),
        }
    }

    /// Deep resolution: chase every variable, recursively through pairs
    /// and sequences, and return a structurally resolved value.  Fails
    /// with [`UnifyError::InfiniteRecursion`] when the substitution has
    /// a reachable cycle.
    pub fn resolve(&self, val: &Val) -> (r: Result<Val, UnifyError>)
        ensures
            match r {
                Ok(out) => sp_resolves(self@.values, *val, out, chase_budget(self@.values)),
                Err(e) => sp_resolve_err(self@.values, *val, chase_budget(self@.values))
                    matches Some(x) && e == UnifyError::InfiniteRecursion(x),
            },
    {
        let budget = bindings_len(&self.values);
        self.resolve_from(val, budget)
    }

    /// Deep resolution of a variable, as [`State::resolve`] on it.
    pub fn resolve_var(&self, key: LVar) -> (r: Result<Val, UnifyError>)
        ensures
            match r {
                Ok(out) => sp_resolves(
                    self@.values,
                    Val::Var(key),
                    out,
                    chase_budget(self@.values),
                ),
                Err(e) => sp_resolve_err(self@.values, Val::Var(key), chase_budget(self@.values))
                    matches Some(x) && e == UnifyError::InfiniteRecursion(x),
            },
    {
        let v = Val::Var(key);
        let budget = bindings_len(&self.values);
        self.resolve_from(&v, budget)
    }

    #[verifier::loop_isolation(false)]
    fn resolve_from(&self, val: &Val, budget: usize) -> (r: Result<Val, UnifyError>)
        ensures
            match r {
                Ok(out) => sp_resolves(self@.values, *val, out, budget as nat),
                Err(e) => sp_resolve_err(self@.values, *val, budget as nat) matches Some(x)
                    && e == UnifyError::InfiniteRecursion(x),
            },
        decreases budget, *val,
    {
        match val {
            Val::Var(x) => match bindings_get(&self.values, x.id) {
                Some(w) => if budget == 0 {
                    Err(UnifyError::InfiniteRecursion(*x))
                } else {
                    self.resolve_from(w, budget - 1)
                },
                None => Ok(val.clone()),
            },
            Val::Pair(a, b) => match self.resolve_from(a, budget) {
                Ok(ra) => match self.resolve_from(b, budget) {
                    Ok(rb) => Ok(Val::Pair(std::rc::Rc::new(ra), std::rc::Rc::new(rb))),
                    Err(e) => {
                        proof {
                            lemma_resolve_exclusive(
                                self@.values,
                                pair_first(deref_val(val)),
                                ra,
                                budget as nat,
                            );
                        }
                        Err(e)
                    },
                },
                Err(e) => Err(e),
            },
            Val::Vec(es) => {
                let mut rs: Vec<Val> = Vec::new();
                let mut i: usize = 0;
                while i < es.len()
                    invariant
                        i <= es.len(),
                        rs@.len() == i as nat,
                        forall|j: int|
                            0 <= j < i as int ==> sp_resolves(
                                self@.values,
                                es@[j],
                                #[trigger] rs@[j],
                                budget as nat,
                            ),
                    decreases es.len() - i,
                {
                    match self.resolve_from(&es[i], budget) {
                        Ok(v) => {
                            rs.push(v);
                        },
                        Err(e) => {
                            proof {
                                assert forall|j: int| 0 <= j < i as int implies sp_resolve_err(
                                    self@.values,
                                    #[trigger] (deref_val(val)->Vec_0)@[j],
                                    budget as nat,
                                ) is None by {
                                    lemma_resolve_exclusive(
                                        self@.values,
                                        es@[j],
                                        rs@[j],
                                        budget as nat,
                                    );
                                }
                                lemma_err_elems_skip(
                                    self@.values,
                                    deref_val(val),
                                    i as int,
                                    budget as nat,
                                );
                            }
                            return Err(e);
                        },
                    }
                    i = i + 1;
                }
                Ok(Val::Vec(std::rc::Rc::new(rs)))
            },
            _ => Ok(val.clone()),
        }
    }
}

} // verus!
