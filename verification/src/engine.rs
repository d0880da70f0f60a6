//! The engine: unification, watch wake-up, goal application and the
//! draining of deferred forks.
//!
//! Every executable entry point here is proved equal to a specification
//! interpreter over [`StateV`], the state's mathematical content.  The
//! interpreter is indexed by a step budget ("fuel"): relational search
//! can diverge (a recursive relation over unknowns enumerates forever,
//! and unification without an occurs check can chase a cycle), so in
//! total code the search runs under an explicit budget, and a branch
//! that exhausts it contributes nothing.  The public entry points use
//! [`ENGINE_FUEL`], which no terminating program of realistic size
//! comes near.

use crate::goal::{
    num_fn2_spec, num_fn_spec, pred1_spec, pred2_spec, watch_ids_seq, Fork, Goal, GoalFn1,
    GoalFn2, Mapping, Projection, Thunk, WatchEntry, WatchIds,
};
use crate::state::{chase_budget, sp_walk, State, StateV};
use crate::value::{pair_val_spec, LVar, Val};
use vstd::prelude::*;

verus! {

/// The step budget the public entry points run under.
pub const ENGINE_FUEL: u64 = 0x1_0000_0000;

/// What one attempt of a projection concluded, at the model level.
pub enum AttemptV {
    /// The projection decided: the branch's new state, or failure.
    Done(Option<StateV>),
    /// The projection cannot decide yet and asks to be woken when any
    /// of these variables is bound; the state is left unchanged.
    Waiting(WatchIds),
}

/// What one attempt of a projection concluded.
pub enum Watch {
    /// The projection decided: the branch's new state, or failure.
    Done(Option<State>),
    /// The projection cannot decide yet; the state is handed back with
    /// the variables to watch.
    Waiting(State, WatchIds),
}

/// A watch-id list with one id struck out, order kept.
pub open spec fn remove_wid(l: Seq<u64>, wid: u64) -> Seq<u64>
    decreases l.len(),
{
    if l.len() == 0 {
        Seq::empty()
    } else if l.last() == wid {
        remove_wid(l.drop_last(), wid)
    } else {
        remove_wid(l.drop_last(), wid).push(l.last())
    }
}

/// Strike `wid` from the index lists of every id in `vids` from
/// position `i` on; ids without a list are left alone.
pub open spec fn sp_unlink(s: StateV, vids: Seq<u64>, wid: u64, i: int) -> StateV
    decreases vids.len() - i,
{
    if 0 <= i < vids.len() {
        let vid = vids[i];
        let s1 = if s.watch_index.dom().contains(vid) {
            StateV {
                watch_index: s.watch_index.insert(vid, remove_wid(s.watch_index[vid], wid)),
                ..s
            }
        } else {
            s
        };
        sp_unlink(s1, vids, wid, i + 1)
    } else {
        s
    }
}

/// Take the watches named in `wids` (from position `i` on) out of the
/// table, unlink each from the other ids it was filed under, and
/// collect their projections in order after `acc`.
pub open spec fn sp_extract(s: StateV, wids: Seq<u64>, i: int, acc: Seq<Projection>) -> (
    StateV,
    Seq<Projection>,
)
    decreases wids.len() - i,
{
    if 0 <= i < wids.len() {
        let wid = wids[i];
        if s.watch_table.dom().contains(wid) {
            let entry = s.watch_table[wid];
            let s1 = StateV { watch_table: s.watch_table.remove(wid), ..s };
            let s2 = sp_unlink(s1, watch_ids_seq(entry.ids), wid, 0);
            sp_extract(s2, wids, i + 1, acc.push(entry.proj))
        } else {
            sp_extract(s, wids, i + 1, acc)
        }
    } else {
        (s, acc)
    }
}

/// File a watch: allocate a fresh watch id, store the record, and add
/// the id under every watched variable.
pub open spec fn sp_file(s: StateV, proj: Projection, ids: WatchIds) -> Option<StateV> {
    if s.next_watch == u64::MAX {
        None
    } else {
        let wid = s.next_watch;
        let s1 = StateV {
            watch_table: s.watch_table.insert(wid, WatchEntry { proj, ids }),
            next_watch: (s.next_watch + 1) as u64,
            ..s
        };
        Some(sp_file_ids(s1, watch_ids_seq(ids), wid, 0))
    }
}

/// Add `wid` at the end of the index list of every id in `vids` from
/// position `i` on.
pub open spec fn sp_file_ids(s: StateV, vids: Seq<u64>, wid: u64, i: int) -> StateV
    decreases vids.len() - i,
{
    if 0 <= i < vids.len() {
        let vid = vids[i];
        let cur = if s.watch_index.dom().contains(vid) {
            s.watch_index[vid]
        } else {
            Seq::empty()
        };
        sp_file_ids(
            StateV { watch_index: s.watch_index.insert(vid, cur.push(wid)), ..s },
            vids,
            wid,
            i + 1,
        )
    } else {
        s
    }
}

/// Unify two values: walk both, then dispatch on the pair.  Equal tags
/// recurse or compare; unequal tags fail; a variable side is bound and
/// its watches are woken.  `None` is failure or an exhausted budget.
pub open spec fn sp_unify(s: StateV, a: Val, b: Val, fuel: nat) -> Option<StateV>
    decreases fuel, 0nat,
{
    if fuel == 0 {
        None
    } else {
        let f1 = (fuel - 1) as nat;
        match sp_walk(s.values, a, chase_budget(s.values)) {
            None => None,
            Some(aw) => match sp_walk(s.values, b, chase_budget(s.values)) {
                None => None,
                Some(bw) => match (aw, bw) {
                    (Val::Var(x), Val::Var(y)) => if x == y {
                        Some(s)
                    } else {
                        sp_bind(s, x, Val::Var(y), f1)
                    },
                    (Val::Var(x), w) => sp_bind(s, x, w, f1),
                    (w, Val::Var(y)) => sp_bind(s, y, w, f1),
                    (Val::Int(x), Val::Int(y)) => if x == y {
                        Some(s)
                    } else {
                        None
                    },
                    (Val::Str(x), Val::Str(y)) => if x@ == y@ {
                        Some(s)
                    } else {
                        None
                    },
                    (Val::Nil, Val::Nil) => Some(s),
                    (Val::Pair(a1, a2), Val::Pair(b1, b2)) => match sp_unify(s, *a1, *b1, f1) {
                        None => None,
                        Some(s1) => sp_unify(s1, *a2, *b2, f1),
                    },
                    (Val::Vec(xs), Val::Vec(ys)) => if xs@.len() != ys@.len() {
                        None
                    } else {
                        sp_unify_elems(s, xs@, ys@, 0, f1)
                    },
                    _ => None,
                },
            },
        }
    }
}

/// Unify two equally long sequences element by element, left to right,
/// threading the state; the first failing element fails the whole.
pub open spec fn sp_unify_elems(s: StateV, xs: Seq<Val>, ys: Seq<Val>, i: int, fuel: nat) -> Option<
    StateV,
>
    decreases fuel, xs.len() - i,
{
    if 0 <= i < xs.len() {
        if fuel == 0 {
            None
        } else {
            match sp_unify(s, xs[i], ys[i], (fuel - 1) as nat) {
                None => None,
                Some(s1) => sp_unify_elems(s1, xs, ys, i + 1, fuel),
            }
        }
    } else {
        Some(s)
    }
}

/// Bind `x` to `w`, then wake every watch filed under `x`: each woken
/// watch is removed from the whole index before it is re-attempted, in
/// filing order; a watch that concludes failure fails the unification.
pub open spec fn sp_bind(s: StateV, x: LVar, w: Val, fuel: nat) -> Option<StateV>
    decreases fuel, 0nat,
{
    if fuel == 0 {
        None
    } else {
        let s1 = StateV { values: s.values.insert(x.id, w), ..s };
        if s1.watch_index.dom().contains(x.id) {
            let wids = s1.watch_index[x.id];
            let s2 = StateV { watch_index: s1.watch_index.remove(x.id), ..s1 };
            let extracted = sp_extract(s2, wids, 0, Seq::empty());
            sp_run_projs(extracted.0, extracted.1, 0, (fuel - 1) as nat)
        } else {
            Some(s1)
        }
    }
}

/// Re-attempt the woken projections in order, threading the state.
pub open spec fn sp_run_projs(s: StateV, projs: Seq<Projection>, i: int, fuel: nat) -> Option<
    StateV,
>
    decreases fuel, projs.len() - i,
{
    if 0 <= i < projs.len() {
        if fuel == 0 {
            None
        } else {
            match sp_subscribe(s, projs[i], (fuel - 1) as nat) {
                None => None,
                Some(s1) => sp_run_projs(s1, projs, i + 1, fuel),
            }
        }
    } else {
        Some(s)
    }
}

/// Attempt a projection once; if it finishes, adopt its outcome, and
/// if it asks for variables, file it and keep the state as it was.
pub open spec fn sp_subscribe(s: StateV, proj: Projection, fuel: nat) -> Option<StateV>
    decreases fuel, 0nat,
{
    if fuel == 0 {
        None
    } else {
        match sp_attempt(s, proj, (fuel - 1) as nat) {
            AttemptV::Done(o) => o,
            AttemptV::Waiting(ids) => sp_file(s, proj, ids),
        }
    }
}

/// One attempt of a projection against the current state.
pub open spec fn sp_attempt(s: StateV, proj: Projection, fuel: nat) -> AttemptV
    decreases fuel, 0nat,
{
    if fuel == 0 {
        AttemptV::Done(None)
    } else {
        let f1 = (fuel - 1) as nat;
        let budget = chase_budget(s.values);
        match proj {
            Projection::Map1(m) => match sp_walk(s.values, m.a, budget) {
                None => AttemptV::Done(None),
                Some(aw) => match sp_walk(s.values, m.b, budget) {
                    None => AttemptV::Done(None),
                    Some(bw) => match (aw, bw) {
                        (Val::Var(x), Val::Var(y)) => AttemptV::Waiting(
                            WatchIds::Two(x.id, y.id),
                        ),
                        (Val::Int(xa), _) => {
                            let yv = num_fn_spec(m.a_to_b, xa as int);
                            if i64::MIN <= yv <= i64::MAX {
                                AttemptV::Done(sp_unify(s, Val::Int(yv as i64), bw, f1))
                            } else {
                                AttemptV::Done(None)
                            }
                        },
                        (_, Val::Int(yb)) => {
                            let xv = num_fn_spec(m.b_to_a, yb as int);
                            if i64::MIN <= xv <= i64::MAX {
                                AttemptV::Done(sp_unify(s, Val::Int(xv as i64), aw, f1))
                            } else {
                                AttemptV::Done(None)
                            }
                        },
                        _ => AttemptV::Done(None),
                    },
                },
            },
            Projection::Map2(m) => match sp_walk(s.values, m.a, budget) {
                None => AttemptV::Done(None),
                Some(aw) => match sp_walk(s.values, m.b, budget) {
                    None => AttemptV::Done(None),
                    Some(bw) => match sp_walk(s.values, m.c, budget) {
                        None => AttemptV::Done(None),
                        Some(cw) => match (aw, bw, cw) {
                            (Val::Int(xa), Val::Int(xb), _) => {
                                let zv = num_fn2_spec(m.ab_to_c, xa as int, xb as int);
                                if i64::MIN <= zv <= i64::MAX {
                                    AttemptV::Done(sp_unify(s, Val::Int(zv as i64), cw, f1))
                                } else {
                                    AttemptV::Done(None)
                                }
                            },
                            (Val::Int(xa), _, Val::Int(xc)) => {
                                let yv = num_fn2_spec(m.ac_to_b, xa as int, xc as int);
                                if i64::MIN <= yv <= i64::MAX {
                                    AttemptV::Done(sp_unify(s, Val::Int(yv as i64), bw, f1))
                                } else {
                                    AttemptV::Done(None)
                                }
                            },
                            (_, Val::Int(xb), Val::Int(xc)) => {
                                let xv = num_fn2_spec(m.bc_to_a, xb as int, xc as int);
                                if i64::MIN <= xv <= i64::MAX {
                                    AttemptV::Done(sp_unify(s, Val::Int(xv as i64), aw, f1))
                                } else {
                                    AttemptV::Done(None)
                                }
                            },
                            (Val::Var(x), Val::Var(y), Val::Var(z)) => AttemptV::Waiting(
                                WatchIds::Three(x.id, y.id, z.id),
                            ),
                            (Val::Var(x), Val::Var(y), _) => AttemptV::Waiting(
                                WatchIds::Two(x.id, y.id),
                            ),
                            (Val::Var(x), _, Val::Var(z)) => AttemptV::Waiting(
                                WatchIds::Two(x.id, z.id),
                            ),
                            (_, Val::Var(y), Val::Var(z)) => AttemptV::Waiting(
                                WatchIds::Two(y.id, z.id),
                            ),
                            _ => AttemptV::Done(None),
                        },
                    },
                },
            },
            Projection::Assert1(a, p) => match sp_walk(s.values, a, budget) {
                None => AttemptV::Done(None),
                Some(aw) => match aw {
                    Val::Var(x) => AttemptV::Waiting(WatchIds::One(x.id)),
                    Val::Int(v) => AttemptV::Done(
                        if pred1_spec(p, v as int) {
                            Some(s)
                        } else {
                            None
                        },
                    ),
                    _ => AttemptV::Done(None),
                },
            },
            Projection::Assert2(a, b, p) => match sp_walk(s.values, a, budget) {
                None => AttemptV::Done(None),
                Some(aw) => match sp_walk(s.values, b, budget) {
                    None => AttemptV::Done(None),
                    Some(bw) => match (aw, bw) {
                        (Val::Var(x), Val::Var(y)) => AttemptV::Waiting(
                            WatchIds::Two(x.id, y.id),
                        ),
                        (Val::Var(x), _) => AttemptV::Waiting(WatchIds::One(x.id)),
                        (_, Val::Var(y)) => AttemptV::Waiting(WatchIds::One(y.id)),
                        (Val::Int(xa), Val::Int(yb)) => AttemptV::Done(
                            if pred2_spec(p, xa as int, yb as int) {
                                Some(s)
                            } else {
                                None
                            },
                        ),
                        _ => AttemptV::Done(None),
                    },
                },
            },
            Projection::Project1(a, f) => match sp_walk(s.values, a, budget) {
                None => AttemptV::Done(None),
                Some(aw) => match aw {
                    Val::Var(x) => AttemptV::Waiting(WatchIds::One(x.id)),
                    Val::Int(v) => match f {
                        GoalFn1::UnifyMapped(nf, target) => {
                            let yv = num_fn_spec(nf, v as int);
                            if i64::MIN <= yv <= i64::MAX {
                                AttemptV::Done(
                                    sp_unify(s, Val::Int(yv as i64), Val::Int(target), f1),
                                )
                            } else {
                                AttemptV::Done(None)
                            }
                        },
                    },
                    _ => AttemptV::Done(None),
                },
            },
            Projection::Project2(a, b, f) => match sp_walk(s.values, a, budget) {
                None => AttemptV::Done(None),
                Some(aw) => match sp_walk(s.values, b, budget) {
                    None => AttemptV::Done(None),
                    Some(bw) => match (aw, bw) {
                        (Val::Var(x), Val::Var(y)) => AttemptV::Waiting(
                            WatchIds::Two(x.id, y.id),
                        ),
                        (Val::Var(x), _) => AttemptV::Waiting(WatchIds::One(x.id)),
                        (_, Val::Var(y)) => AttemptV::Waiting(WatchIds::One(y.id)),
                        (Val::Int(xa), Val::Int(yb)) => match f {
                            GoalFn2::UnifyMapped(nf, target) => {
                                let zv = num_fn2_spec(nf, xa as int, yb as int);
                                if i64::MIN <= zv <= i64::MAX {
                                    AttemptV::Done(
                                        sp_unify(s, Val::Int(zv as i64), Val::Int(target), f1),
                                    )
                                } else {
                                    AttemptV::Done(None)
                                }
                            },
                        },
                        _ => AttemptV::Done(None),
                    },
                },
            },
            Projection::Member(m) => match sp_walk(s.values, m.collection, budget) {
                None => AttemptV::Done(None),
                Some(cw) => match cw {
                    Val::Var(x) => AttemptV::Waiting(WatchIds::One(x.id)),
                    Val::Vec(es) => AttemptV::Done(
                        Some(StateV { forks: s.forks.push(Fork::Branches(m.item, es)), ..s }),
                    ),
                    _ => AttemptV::Done(None),
                },
            },
        }
    }
}

/// Apply a goal to a state.
pub open spec fn sp_apply(g: Goal, s: StateV, fuel: nat) -> Option<StateV>
    decreases fuel, 0nat,
{
    if fuel == 0 {
        None
    } else {
        let f1 = (fuel - 1) as nat;
        match g {
            Goal::Unify(a, b) => sp_unify(s, a, b, f1),
            Goal::Both(a, b) => match sp_apply(*a, s, f1) {
                None => None,
                Some(s1) => sp_apply(*b, s1, f1),
            },
            Goal::All(gs) => sp_apply_list(s, gs@, 0, f1),
            Goal::Either(a, b) => Some(StateV { forks: s.forks.push(Fork::Two(a, b)), ..s }),
            Goal::Any(gs) => Some(StateV { forks: s.forks.push(Fork::Goals(gs)), ..s }),
            Goal::Lazy(t) => match t {
                Thunk::Append(a, b, c) => Some(
                    StateV { forks: s.forks.push(Fork::Append(a, b, c)), ..s },
                ),
            },
            Goal::Project(p) => sp_subscribe(s, p, f1),
        }
    }
}

/// Apply the goals from position `i` on, left to right, threading the
/// state; a failing goal fails the whole conjunction.
pub open spec fn sp_apply_list(s: StateV, goals: Seq<Goal>, i: int, fuel: nat) -> Option<StateV>
    decreases fuel, goals.len() - i,
{
    if 0 <= i < goals.len() {
        if fuel == 0 {
            None
        } else {
            match sp_apply(goals[i], s, (fuel - 1) as nat) {
                None => None,
                Some(s1) => sp_apply_list(s1, goals, i + 1, fuel),
            }
        }
    } else {
        Some(s)
    }
}

/// The states of a successful branch, or nothing.
pub open spec fn opt_seq(o: Option<StateV>) -> Seq<StateV> {
    match o {
        Some(s) => seq![s],
        None => Seq::empty(),
    }
}

/// Run one fork against the state it was queued in: every branch sees
/// that same state, and the branches' outcomes come in declared order.
pub open spec fn sp_run_fork(f: Fork, s: StateV, fuel: nat) -> Seq<StateV>
    decreases fuel, 0nat,
{
    if fuel == 0 {
        Seq::empty()
    } else {
        let f1 = (fuel - 1) as nat;
        match f {
            Fork::Goals(gs) => sp_fork_goals(s, gs@, 0, fuel),
            Fork::Two(a, b) => opt_seq(sp_apply(*a, s, f1)) + opt_seq(sp_apply(*b, s, f1)),
            Fork::Branches(item, es) => sp_member_branches(s, item, es@, 0, fuel),
            Fork::Append(a, b, c) => opt_seq(sp_append_base(s, a, b, c, f1)) + opt_seq(
                sp_append_step(s, a, b, c, f1),
            ),
        }
    }
}

/// One branch per goal from position `i` on, in declared order.
pub open spec fn sp_fork_goals(s: StateV, goals: Seq<Goal>, i: int, fuel: nat) -> Seq<StateV>
    decreases fuel, goals.len() - i,
{
    if 0 <= i < goals.len() {
        if fuel == 0 {
            Seq::empty()
        } else {
            opt_seq(sp_apply(goals[i], s, (fuel - 1) as nat)) + sp_fork_goals(
                s,
                goals,
                i + 1,
                fuel,
            )
        }
    } else {
        Seq::empty()
    }
}

/// One branch per element from position `i` on: each unifies the item
/// with that element, in element order.
pub open spec fn sp_member_branches(s: StateV, item: Val, es: Seq<Val>, i: int, fuel: nat) -> Seq<
    StateV,
>
    decreases fuel, es.len() - i,
{
    if 0 <= i < es.len() {
        if fuel == 0 {
            Seq::empty()
        } else {
            opt_seq(sp_unify(s, item, es[i], (fuel - 1) as nat)) + sp_member_branches(
                s,
                item,
                es,
                i + 1,
                fuel,
            )
        }
    } else {
        Seq::empty()
    }
}

/// The base case of the relational append: the first list is empty and
/// the other two are equal.
pub open spec fn sp_append_base(s: StateV, a: Val, b: Val, c: Val, fuel: nat) -> Option<StateV>
    decreases fuel, 0nat,
{
    if fuel == 0 {
        None
    } else {
        let f1 = (fuel - 1) as nat;
        match sp_unify(s, a, Val::Nil, f1) {
            None => None,
            Some(s1) => sp_unify(s1, b, c, f1),
        }
    }
}

/// The recursive case of the relational append: the first and third
/// lists share their head, and the append relation holds of the tails.
/// Three fresh variables are drawn above the state's watermark.
pub open spec fn sp_append_step(s: StateV, a: Val, b: Val, c: Val, fuel: nat) -> Option<StateV>
    decreases fuel, 0nat,
{
    if fuel == 0 {
        None
    } else if s.next_var > u64::MAX - 3 {
        None
    } else {
        let f1 = (fuel - 1) as nat;
        let h = LVar { id: s.next_var };
        let ra = LVar { id: (s.next_var + 1) as u64 };
        let rc = LVar { id: (s.next_var + 2) as u64 };
        let s0 = StateV { next_var: (s.next_var + 3) as u64, ..s };
        match sp_unify(s0, a, pair_val_spec(Val::Var(h), Val::Var(ra)), f1) {
            None => None,
            Some(s1) => match sp_unify(s1, c, pair_val_spec(Val::Var(h), Val::Var(rc)), f1) {
                None => None,
                Some(s2) => Some(
                    StateV {
                        forks: s2.forks.push(Fork::Append(Val::Var(ra), b, Val::Var(rc))),
                        ..s2
                    },
                ),
            },
        }
    }
}

/// Drain a state into its resolved successor states: pop the oldest
/// fork, run it, and recurse on each resulting state in order; a state
/// with no pending forks is yielded as it is.
pub open spec fn sp_drain(s: StateV, fuel: nat) -> Seq<StateV>
    decreases fuel, 0nat,
{
    if fuel == 0 {
        Seq::empty()
    } else if s.forks.len() == 0 {
        seq![s]
    } else {
        let f1 = (fuel - 1) as nat;
        let f = s.forks[0];
        let s1 = StateV { forks: s.forks.drop_first(), ..s };
        sp_drain_all(sp_run_fork(f, s1, f1), 0, f1)
    }
}

/// Drain each of the given states in order and concatenate the
/// results.
pub open spec fn sp_drain_all(states: Seq<StateV>, i: int, fuel: nat) -> Seq<StateV>
    decreases fuel, states.len() - i,
{
    if 0 <= i < states.len() {
        sp_drain(states[i], fuel) + sp_drain_all(states, i + 1, fuel)
    } else {
        Seq::empty()
    }
}

/// The view of an optional state.
pub open spec fn opt_view(o: Option<State>) -> Option<StateV> {
    match o {
        Some(s) => Some(s@),
        None => None,
    }
}

/// The views of a list of states, in order.
pub open spec fn states_view(v: Seq<State>) -> Seq<StateV> {
    Seq::new(v.len(), |i: int| v[i]@)
}

impl State {
    /// Unify two values against this state: resolve both, compare or
    /// recurse on resolved payloads, bind a variable side and wake its
    /// watches.  `None` is failure: the branch is pruned.
    pub fn unify(self, a: Val, b: Val) -> (r: Option<State>)
        ensures
            opt_view(r) == sp_unify(self@, a, b, ENGINE_FUEL as nat),
    {
        un(self, &a, &b, ENGINE_FUEL)
    }

    /// Apply a projection once; adopt its outcome if it finishes, file
    /// it in the watch index if it asks for variables.
    pub fn watch(self, proj: Projection) -> (r: Option<State>)
        ensures
            opt_view(r) == sp_subscribe(self@, proj, ENGINE_FUEL as nat),
    {
        subscribe_fuel(self, proj, ENGINE_FUEL)
    }
}

#[verifier::loop_isolation(false)]
fn un(s: State, a: &Val, b: &Val, fuel: u64) -> (r: Option<State>)
    ensures
        opt_view(r) == sp_unify(s@, *a, *b, fuel as nat),
    decreases fuel,
{
    if fuel == 0 {
        return None;
    }
    let f1 = fuel - 1;
    let aw: Val = match s.walk(a) {
        Some(w) => w.clone(),
        None => {
            return None;
        },
    };
    let bw: Val = match s.walk(b) {
        Some(w) => w.clone(),
        None => {
            return None;
        },
    };
    match (&aw, &bw) {
        (Val::Var(x), Val::Var(y)) => if x.id == y.id {
            Some(s)
        } else {
            bind_fuel(s, *x, Val::Var(*y), f1)
        },
        (Val::Var(x), _) => bind_fuel(s, *x, bw.clone(), f1),
        (_, Val::Var(y)) => bind_fuel(s, *y, aw.clone(), f1),
        (Val::Int(x), Val::Int(y)) => if x == y {
            Some(s)
        } else {
            None
        },
        (Val::Str(x), Val::Str(y)) => if **x == **y {
            Some(s)
        } else {
            None
        },
        (Val::Nil, Val::Nil) => Some(s),
        (Val::Pair(a1, a2), Val::Pair(b1, b2)) => match un(s, &**a1, &**b1, f1) {
            None => None,
            Some(s1) => un(s1, &**a2, &**b2, f1),
        },
        (Val::Vec(xs), Val::Vec(ys)) => {
            if xs.len() != ys.len() {
                return None;
            }
            let ghost s0 = s@;
            let ghost xsv = xs@;
            let ghost ysv = ys@;
            let mut cur = s;
            let mut i: usize = 0;
            while i < xs.len()
                invariant
                    i <= xs.len(),
                    xs@ == xsv,
                    ys@ == ysv,
                    xsv.len() == ysv.len(),
                    sp_unify_elems(s0, xsv, ysv, 0, f1 as nat) == sp_unify_elems(
                        cur@,
                        xsv,
                        ysv,
                        i as int,
                        f1 as nat,
                    ),
                decreases xs.len() - i,
            {
                if f1 == 0 {
                    return None;
                }
                match un(cur, &xs[i], &ys[i], f1 - 1) {
                    None => {
                        return None;
                    },
                    Some(s1) => {
                        cur = s1;
                    },
                }
                i = i + 1;
            }
            Some(cur)
        },
        _ => None,
    }
}

#[verifier::loop_isolation(false)]
fn bind_fuel(s: State, x: LVar, w: Val, fuel: u64) -> (r: Option<State>)
    ensures
        opt_view(r) == sp_bind(s@, x, w, fuel as nat),
    decreases fuel,
{
    if fuel == 0 {
        return None;
    }
    let f1 = fuel - 1;
    let mut s = s;
    crate::store::bindings_insert(&mut s.values, x.id, w);
    match crate::store::index_remove(&mut s.watch_index, x.id) {
        None => Some(s),
        Some(wids) => {
            let ghost s2v = s@;
            let ghost widsv = wids@;
            let mut projs: Vec<Projection> = Vec::new();
            let mut i: usize = 0;
            while i < wids.len()
                invariant
                    i <= wids.len(),
                    wids@ == widsv,
                    sp_extract(s2v, widsv, 0, Seq::empty()) == sp_extract(
                        s@,
                        widsv,
                        i as int,
                        projs@,
                    ),
                decreases wids.len() - i,
            {
                let wid = wids[i];
                let ghost pre = s@;
                let ghost preprojs = projs@;
                match crate::store::table_remove(&mut s.watch_table, wid) {
                    None => {
                        proof {
                            assert(pre.watch_table.remove(wid) =~= pre.watch_table);
                            assert(s@ =~= pre);
                        }
                    },
                    Some(entry) => {
                        let ghost mid = s@;
                        unlink_watch(&mut s, entry.ids, wid);
                        projs.push(entry.proj);
                        proof {
                            assert(mid =~= (StateV {
                                watch_table: pre.watch_table.remove(wid),
                                ..pre
                            }));
                            assert(sp_extract(pre, widsv, i as int, preprojs) == sp_extract(
                                s@,
                                widsv,
                                i as int + 1,
                                projs@,
                            ));
                        }
                    },
                }
                i = i + 1;
            }
            proof {
                assert(sp_extract(s2v, widsv, 0, Seq::empty()) == (s@, projs@));
            }
            run_projs(s, projs, f1)
        },
    }
}

/// Strike `wid` from the index lists of every id the watch was filed
/// under.
#[verifier::loop_isolation(false)]
fn unlink_watch(s: &mut State, ids: WatchIds, wid: u64)
    ensures
        final(s)@ == sp_unlink(old(s)@, watch_ids_seq(ids), wid, 0),
{
    let vids = crate::goal::watch_ids_vec(ids);
    let ghost s0 = s@;
    let ghost vidsv = vids@;
    let mut j: usize = 0;
    while j < vids.len()
        invariant
            j <= vids.len(),
            vids@ == vidsv,
            sp_unlink(s0, vidsv, wid, 0) == sp_unlink(s@, vidsv, wid, j as int),
        decreases vids.len() - j,
    {
        let vid = vids[j];
        let ghost pre = s@;
        match crate::store::index_remove(&mut s.watch_index, vid) {
            None => {
                proof {
                    assert(pre.watch_index.remove(vid) =~= pre.watch_index);
                    assert(s@ =~= pre);
                }
            },
            Some(l) => {
                let mut nl: Vec<u64> = Vec::new();
                let mut k: usize = 0;
                while k < l.len()
                    invariant
                        k <= l.len(),
                        nl@ == remove_wid(l@.take(k as int), wid),
                    decreases l.len() - k,
                {
                    proof {
                        assert(l@.take(k as int + 1).drop_last() =~= l@.take(k as int));
                        assert(l@.take(k as int + 1).last() == l@[k as int]);
                    }
                    if l[k] != wid {
                        nl.push(l[k]);
                    }
                    k = k + 1;
                }
                proof {
                    assert(l@.take(l@.len() as int) =~= l@);
                }
                crate::store::index_insert(&mut s.watch_index, vid, nl);
                proof {
                    assert(s@.watch_index =~= pre.watch_index.insert(
                        vid,
                        remove_wid(l@, wid),
                    ));
                    assert(s@ =~= (StateV {
                        watch_index: pre.watch_index.insert(vid, remove_wid(l@, wid)),
                        ..pre
                    }));
                }
            },
        }
        j = j + 1;
    }
}

#[verifier::loop_isolation(false)]
fn run_projs(s: State, projs: Vec<Projection>, fuel: u64) -> (r: Option<State>)
    ensures
        opt_view(r) == sp_run_projs(s@, projs@, 0, fuel as nat),
    decreases fuel,
{
    let ghost s0 = s@;
    let ghost projsv = projs@;
    let mut cur = s;
    let mut i: usize = 0;
    while i < projs.len()
        invariant
            i <= projs.len(),
            projs@ == projsv,
            sp_run_projs(s0, projsv, 0, fuel as nat) == sp_run_projs(
                cur@,
                projsv,
                i as int,
                fuel as nat,
            ),
        decreases projs.len() - i,
    {
        if fuel == 0 {
            return None;
        }
        match subscribe_fuel(cur, projs[i].clone(), fuel - 1) {
            None => {
                return None;
            },
            Some(s1) => {
                cur = s1;
            },
        }
        i = i + 1;
    }
    Some(cur)
}

/// Walk a value and hand back an owned copy of the result, or `None`
/// on a cycle of variable links.
fn walk_owned(s: &State, v: &Val) -> (r: Option<Val>)
    ensures
        match r {
            Some(w) => sp_walk(s@.values, *v, chase_budget(s@.values)) == Some(w),
            None => sp_walk(s@.values, *v, chase_budget(s@.values)) is None,
        },
{
    match s.walk(v) {
        Some(w) => Some(w.clone()),
        None => None,
    }
}

fn attempt_fuel(s: State, proj: &Projection, fuel: u64) -> (r: Watch)
    ensures
        match r {
            Watch::Done(o) => sp_attempt(s@, *proj, fuel as nat) == AttemptV::Done(opt_view(o)),
            Watch::Waiting(s2, ids) => s2@ == s@ && sp_attempt(s@, *proj, fuel as nat)
                == AttemptV::Waiting(ids),
        },
    decreases fuel,
{
    if fuel == 0 {
        return Watch::Done(None);
    }
    let f1 = fuel - 1;
    match proj {
        Projection::Map1(m) => {
            let aw = match walk_owned(&s, &m.a) {
                Some(w) => w,
                None => {
                    return Watch::Done(None);
                },
            };
            let bw = match walk_owned(&s, &m.b) {
                Some(w) => w,
                None => {
                    return Watch::Done(None);
                },
            };
            match (&aw, &bw) {
                (Val::Var(x), Val::Var(y)) => Watch::Waiting(s, WatchIds::Two(x.id, y.id)),
                (Val::Int(xa), _) => match crate::goal::num_fn_apply(m.a_to_b, *xa) {
                    Some(yv) => Watch::Done(un(s, &Val::Int(yv), &bw, f1)),
                    None => Watch::Done(None),
                },
                (_, Val::Int(yb)) => match crate::goal::num_fn_apply(m.b_to_a, *yb) {
                    Some(xv) => Watch::Done(un(s, &Val::Int(xv), &aw, f1)),
                    None => Watch::Done(None),
                },
                _ => Watch::Done(None),
            }
        },
        Projection::Map2(m) => {
            let aw = match walk_owned(&s, &m.a) {
                Some(w) => w,
                None => {
                    return Watch::Done(None);
                },
            };
            let bw = match walk_owned(&s, &m.b) {
                Some(w) => w,
                None => {
                    return Watch::Done(None);
                },
            };
            let cw = match walk_owned(&s, &m.c) {
                Some(w) => w,
                None => {
                    return Watch::Done(None);
                },
            };
            match (&aw, &bw, &cw) {
                (Val::Int(xa), Val::Int(xb), _) => match crate::goal::num_fn2_apply(
                    m.ab_to_c,
                    *xa,
                    *xb,
                ) {
                    Some(zv) => Watch::Done(un(s, &Val::Int(zv), &cw, f1)),
                    None => Watch::Done(None),
                },
                (Val::Int(xa), _, Val::Int(xc)) => match crate::goal::num_fn2_apply(
                    m.ac_to_b,
                    *xa,
                    *xc,
                ) {
                    Some(yv) => Watch::Done(un(s, &Val::Int(yv), &bw, f1)),
                    None => Watch::Done(None),
                },
                (_, Val::Int(xb), Val::Int(xc)) => match crate::goal::num_fn2_apply(
                    m.bc_to_a,
                    *xb,
                    *xc,
                ) {
                    Some(xv) => Watch::Done(un(s, &Val::Int(xv), &aw, f1)),
                    None => Watch::Done(None),
                },
                (Val::Var(x), Val::Var(y), Val::Var(z)) => Watch::Waiting(
                    s,
                    WatchIds::Three(x.id, y.id, z.id),
                ),
                (Val::Var(x), Val::Var(y), _) => Watch::Waiting(s, WatchIds::Two(x.id, y.id)),
                (Val::Var(x), _, Val::Var(z)) => Watch::Waiting(s, WatchIds::Two(x.id, z.id)),
                (_, Val::Var(y), Val::Var(z)) => Watch::Waiting(s, WatchIds::Two(y.id, z.id)),
                _ => Watch::Done(None),
            }
        },
        Projection::Assert1(a, p) => {
            let aw = match walk_owned(&s, a) {
                Some(w) => w,
                None => {
                    return Watch::Done(None);
                },
            };
            match &aw {
                Val::Var(x) => Watch::Waiting(s, WatchIds::One(x.id)),
                Val::Int(v) => if crate::goal::pred1_apply(*p, *v) {
                    Watch::Done(Some(s))
                } else {
                    Watch::Done(None)
                },
                _ => Watch::Done(None),
            }
        },
        Projection::Assert2(a, b, p) => {
            let aw = match walk_owned(&s, a) {
                Some(w) => w,
                None => {
                    return Watch::Done(None);
                },
            };
            let bw = match walk_owned(&s, b) {
                Some(w) => w,
                None => {
                    return Watch::Done(None);
                },
            };
            match (&aw, &bw) {
                (Val::Var(x), Val::Var(y)) => Watch::Waiting(s, WatchIds::Two(x.id, y.id)),
                (Val::Var(x), _) => Watch::Waiting(s, WatchIds::One(x.id)),
                (_, Val::Var(y)) => Watch::Waiting(s, WatchIds::One(y.id)),
                (Val::Int(xa), Val::Int(yb)) => if crate::goal::pred2_apply(*p, *xa, *yb) {
                    Watch::Done(Some(s))
                } else {
                    Watch::Done(None)
                },
                _ => Watch::Done(None),
            }
        },
        Projection::Project1(a, f) => {
            let aw = match walk_owned(&s, a) {
                Some(w) => w,
                None => {
                    return Watch::Done(None);
                },
            };
            match &aw {
                Val::Var(x) => Watch::Waiting(s, WatchIds::One(x.id)),
                Val::Int(v) => match f {
                    GoalFn1::UnifyMapped(nf, target) => match crate::goal::num_fn_apply(
                        *nf,
                        *v,
                    ) {
                        Some(yv) => Watch::Done(un(s, &Val::Int(yv), &Val::Int(*target), f1)),
                        None => Watch::Done(None),
                    },
                },
                _ => Watch::Done(None),
            }
        },
        Projection::Project2(a, b, f) => {
            let aw = match walk_owned(&s, a) {
                Some(w) => w,
                None => {
                    return Watch::Done(None);
                },
            };
            let bw = match walk_owned(&s, b) {
                Some(w) => w,
                None => {
                    return Watch::Done(None);
                },
            };
            match (&aw, &bw) {
                (Val::Var(x), Val::Var(y)) => Watch::Waiting(s, WatchIds::Two(x.id, y.id)),
                (Val::Var(x), _) => Watch::Waiting(s, WatchIds::One(x.id)),
                (_, Val::Var(y)) => Watch::Waiting(s, WatchIds::One(y.id)),
                (Val::Int(xa), Val::Int(yb)) => match f {
                    GoalFn2::UnifyMapped(nf, target) => match crate::goal::num_fn2_apply(
                        *nf,
                        *xa,
                        *yb,
                    ) {
                        Some(zv) => Watch::Done(un(s, &Val::Int(zv), &Val::Int(*target), f1)),
                        None => Watch::Done(None),
                    },
                },
                _ => Watch::Done(None),
            }
        },
        Projection::Member(m) => {
            let cw = match walk_owned(&s, &m.collection) {
                Some(w) => w,
                None => {
                    return Watch::Done(None);
                },
            };
            match &cw {
                Val::Var(x) => Watch::Waiting(s, WatchIds::One(x.id)),
                Val::Vec(es) => {
                    let esc = es.clone();
                    let mut s2 = s;
                    crate::store::queue_push_back(
                        &mut s2.forks,
                        Fork::Branches(m.item.clone(), esc),
                    );
                    Watch::Done(Some(s2))
                },
                _ => Watch::Done(None),
            }
        },
    }
}

impl Projection {
    /// Attempt this projection against a state: decide, or hand the
    /// state back with the variables to be woken on.
    pub fn attempt(&self, state: State) -> (r: Watch)
        ensures
            match r {
                Watch::Done(o) => sp_attempt(state@, *self, ENGINE_FUEL as nat)
                    == AttemptV::Done(opt_view(o)),
                Watch::Waiting(s2, ids) => s2@ == state@ && sp_attempt(
                    state@,
                    *self,
                    ENGINE_FUEL as nat,
                ) == AttemptV::Waiting(ids),
            },
    {
        attempt_fuel(state, self, ENGINE_FUEL)
    }
}

fn subscribe_fuel(s: State, proj: Projection, fuel: u64) -> (r: Option<State>)
    ensures
        opt_view(r) == sp_subscribe(s@, proj, fuel as nat),
    decreases fuel,
{
    if fuel == 0 {
        return None;
    }
    match attempt_fuel(s, &proj, fuel - 1) {
        Watch::Done(o) => o,
        Watch::Waiting(s2, ids) => file_watch(s2, proj, ids),
    }
}

/// File a watch under every variable it mentions, under a fresh watch
/// id.
#[verifier::loop_isolation(false)]
fn file_watch(s: State, proj: Projection, ids: WatchIds) -> (r: Option<State>)
    ensures
        opt_view(r) == sp_file(s@, proj, ids),
{
    if s.next_watch == u64::MAX {
        return None;
    }
    let mut s = s;
    let wid = s.next_watch;
    s.next_watch = s.next_watch + 1;
    crate::store::table_insert(&mut s.watch_table, wid, WatchEntry { proj, ids });
    let vids = crate::goal::watch_ids_vec(ids);
    let ghost s1v = s@;
    let ghost vidsv = vids@;
    let mut j: usize = 0;
    while j < vids.len()
        invariant
            j <= vids.len(),
            vids@ == vidsv,
            sp_file_ids(s1v, vidsv, wid, 0) == sp_file_ids(s@, vidsv, wid, j as int),
        decreases vids.len() - j,
    {
        let vid = vids[j];
        let ghost before = s@;
        match crate::store::index_remove(&mut s.watch_index, vid) {
            None => {
                let mut nv: Vec<u64> = Vec::new();
                nv.push(wid);
                crate::store::index_insert(&mut s.watch_index, vid, nv);
                proof {
                    assert(Seq::<u64>::empty().push(wid) =~= seq![wid]);
                    assert(s@ =~= (StateV {
                        watch_index: before.watch_index.insert(vid, Seq::<u64>::empty().push(wid)),
                        ..before
                    }));
                }
            },
            Some(mut l) => {
                let ghost lv = l@;
                l.push(wid);
                crate::store::index_insert(&mut s.watch_index, vid, l);
                proof {
                    assert(s@ =~= (StateV {
                        watch_index: before.watch_index.insert(vid, lv.push(wid)),
                        ..before
                    }));
                }
            },
        }
        j = j + 1;
    }
    Some(s)
}

impl Goal {
    /// Apply this goal to a state: fail, extend it, or defer work into
    /// the fork queue or the watch index.
    pub fn apply(self, state: State) -> (r: Option<State>)
        ensures
            opt_view(r) == sp_apply(self, state@, ENGINE_FUEL as nat),
    {
        apply_fuel(self, state, ENGINE_FUEL)
    }
}

impl Mapping {
    /// Attempt this mapping against a state, filing it as a watch when
    /// neither side is resolved yet.
    pub fn run(self, state: State) -> (r: Option<State>)
        ensures
            opt_view(r) == sp_subscribe(state@, Projection::Map1(self), ENGINE_FUEL as nat),
    {
        subscribe_fuel(state, Projection::Map1(self), ENGINE_FUEL)
    }
}

#[verifier::loop_isolation(false)]
pub(crate) fn apply_fuel(g: Goal, s: State, fuel: u64) -> (r: Option<State>)
    ensures
        opt_view(r) == sp_apply(g, s@, fuel as nat),
    decreases fuel,
{
    if fuel == 0 {
        return None;
    }
    let f1 = fuel - 1;
    match g {
        Goal::Unify(a, b) => un(s, &a, &b, f1),
        Goal::Both(a, b) => match apply_fuel((*a).clone(), s, f1) {
            None => None,
            Some(s1) => apply_fuel((*b).clone(), s1, f1),
        },
        Goal::All(gs) => {
            let ghost s0 = s@;
            let ghost gsv = gs@;
            let mut cur = s;
            let mut i: usize = 0;
            while i < gs.len()
                invariant
                    i <= gs.len(),
                    gs@ == gsv,
                    sp_apply_list(s0, gsv, 0, f1 as nat) == sp_apply_list(
                        cur@,
                        gsv,
                        i as int,
                        f1 as nat,
                    ),
                decreases gs.len() - i,
            {
                if f1 == 0 {
                    return None;
                }
                match apply_fuel(gs[i].clone(), cur, f1 - 1) {
                    None => {
                        return None;
                    },
                    Some(s1) => {
                        cur = s1;
                    },
                }
                i = i + 1;
            }
            Some(cur)
        },
        Goal::Either(a, b) => {
            let mut s2 = s;
            crate::store::queue_push_back(&mut s2.forks, Fork::Two(a, b));
            Some(s2)
        },
        Goal::Any(gs) => {
            let mut s2 = s;
            crate::store::queue_push_back(&mut s2.forks, Fork::Goals(gs));
            Some(s2)
        },
        Goal::Lazy(t) => match t {
            Thunk::Append(a, b, c) => {
                let mut s2 = s;
                crate::store::queue_push_back(&mut s2.forks, Fork::Append(a, b, c));
                Some(s2)
            },
        },
        Goal::Project(p) => subscribe_fuel(s, p, f1),
    }
}

#[verifier::loop_isolation(false)]
fn run_fork(f: Fork, s: State, fuel: u64) -> (r: Vec<State>)
    ensures
        states_view(r@) == sp_run_fork(f, s@, fuel as nat),
    decreases fuel,
{
    let mut out: Vec<State> = Vec::new();
    if fuel == 0 {
        proof {
            assert(states_view(out@) =~= sp_run_fork(f, s@, fuel as nat));
        }
        return out;
    }
    let f1 = fuel - 1;
    match f {
        Fork::Goals(gs) => {
            let ghost s0 = s@;
            let ghost gsv = gs@;
            let mut i: usize = 0;
            while i < gs.len()
                invariant
                    i <= gs.len(),
                    gs@ == gsv,
                    s@ == s0,
                    fuel >= 1,
                    sp_fork_goals(s0, gsv, 0, fuel as nat) == states_view(out@) + sp_fork_goals(
                        s0,
                        gsv,
                        i as int,
                        fuel as nat,
                    ),
                decreases gs.len() - i,
            {
                let ghost outpre = out@;
                match apply_fuel(gs[i].clone(), s.clone(), f1) {
                    None => {
                        proof {
                            assert(states_view(outpre) + sp_fork_goals(
                                s0,
                                gsv,
                                i as int,
                                fuel as nat,
                            ) =~= states_view(out@) + sp_fork_goals(
                                s0,
                                gsv,
                                i as int + 1,
                                fuel as nat,
                            ));
                        }
                    },
                    Some(s1) => {
                        out.push(s1);
                        proof {
                            assert(states_view(outpre) + sp_fork_goals(
                                s0,
                                gsv,
                                i as int,
                                fuel as nat,
                            ) =~= states_view(out@) + sp_fork_goals(
                                s0,
                                gsv,
                                i as int + 1,
                                fuel as nat,
                            ));
                        }
                    },
                }
                i = i + 1;
            }
            proof {
                assert(states_view(out@) =~= states_view(out@) + sp_fork_goals(
                    s0,
                    gsv,
                    gsv.len() as int,
                    fuel as nat,
                ));
            }
            out
        },
        Fork::Two(a, b) => {
            match apply_fuel((*a).clone(), s.clone(), f1) {
                None => {},
                Some(s1) => {
                    out.push(s1);
                },
            }
            match apply_fuel((*b).clone(), s, f1) {
                None => {},
                Some(s1) => {
                    out.push(s1);
                },
            }
            proof {
                assert(states_view(out@) =~= sp_run_fork(
                    Fork::Two(a, b),
                    s@,
                    fuel as nat,
                ));
            }
            out
        },
        Fork::Branches(item, es) => {
            let ghost s0 = s@;
            let ghost esv = es@;
            let mut i: usize = 0;
            while i < es.len()
                invariant
                    i <= es.len(),
                    es@ == esv,
                    s@ == s0,
                    fuel >= 1,
                    sp_member_branches(s0, item, esv, 0, fuel as nat) == states_view(out@)
                        + sp_member_branches(s0, item, esv, i as int, fuel as nat),
                decreases es.len() - i,
            {
                let ghost outpre = out@;
                match un(s.clone(), &item, &es[i], f1) {
                    None => {
                        proof {
                            assert(states_view(outpre) + sp_member_branches(
                                s0,
                                item,
                                esv,
                                i as int,
                                fuel as nat,
                            ) =~= states_view(out@) + sp_member_branches(
                                s0,
                                item,
                                esv,
                                i as int + 1,
                                fuel as nat,
                            ));
                        }
                    },
                    Some(s1) => {
                        out.push(s1);
                        proof {
                            assert(states_view(outpre) + sp_member_branches(
                                s0,
                                item,
                                esv,
                                i as int,
                                fuel as nat,
                            ) =~= states_view(out@) + sp_member_branches(
                                s0,
                                item,
                                esv,
                                i as int + 1,
                                fuel as nat,
                            ));
                        }
                    },
                }
                i = i + 1;
            }
            proof {
                assert(states_view(out@) =~= states_view(out@) + sp_member_branches(
                    s0,
                    item,
                    esv,
                    esv.len() as int,
                    fuel as nat,
                ));
            }
            out
        },
        Fork::Append(a, b, c) => {
            match append_base(s.clone(), &a, &b, &c, f1) {
                None => {},
                Some(s1) => {
                    out.push(s1);
                },
            }
            match append_step(s, a.clone(), b, c.clone(), f1) {
                None => {},
                Some(s1) => {
                    out.push(s1);
                },
            }
            proof {
                assert(states_view(out@) =~= sp_run_fork(
                    Fork::Append(a, b, c),
                    s@,
                    fuel as nat,
                ));
            }
            out
        },
    }
}

fn append_base(s: State, a: &Val, b: &Val, c: &Val, fuel: u64) -> (r: Option<State>)
    ensures
        opt_view(r) == sp_append_base(s@, *a, *b, *c, fuel as nat),
    decreases fuel,
{
    if fuel == 0 {
        return None;
    }
    let f1 = fuel - 1;
    match un(s, a, &Val::Nil, f1) {
        None => None,
        Some(s1) => un(s1, b, c, f1),
    }
}

fn append_step(s: State, a: Val, b: Val, c: Val, fuel: u64) -> (r: Option<State>)
    ensures
        opt_view(r) == sp_append_step(s@, a, b, c, fuel as nat),
    decreases fuel,
{
    if fuel == 0 {
        return None;
    }
    if s.next_var > u64::MAX - 3 {
        return None;
    }
    let f1 = fuel - 1;
    let h = LVar { id: s.next_var };
    let ra = LVar { id: s.next_var + 1 };
    let rc = LVar { id: s.next_var + 2 };
    let mut s0 = s;
    s0.next_var = s0.next_var + 3;
    let pa = crate::value::pair_val(Val::Var(h), Val::Var(ra));
    match un(s0, &a, &pa, f1) {
        None => None,
        Some(s1) => {
            let pc = crate::value::pair_val(Val::Var(h), Val::Var(rc));
            match un(s1, &c, &pc, f1) {
                None => None,
                Some(s2) => {
                    let mut s3 = s2;
                    crate::store::queue_push_back(
                        &mut s3.forks,
                        Fork::Append(Val::Var(ra), b, Val::Var(rc)),
                    );
                    Some(s3)
                },
            }
        },
    }
}

impl State {
    /// Drain this state into its resolved successor states: repeatedly
    /// pop the oldest fork, run it, and recurse on each resulting
    /// state; a state with no pending forks stands for itself.  The
    /// budget bounds the whole expansion, since the search tree may be
    /// infinite.
    pub fn drain(self, fuel: u64) -> (r: Vec<State>)
        ensures
            states_view(r@) == sp_drain(self@, fuel as nat),
    {
        drain_fuel(self, fuel)
    }
}

#[verifier::loop_isolation(false)]
pub(crate) fn drain_fuel(s: State, fuel: u64) -> (r: Vec<State>)
    ensures
        states_view(r@) == sp_drain(s@, fuel as nat),
    decreases fuel,
{
    let mut out: Vec<State> = Vec::new();
    if fuel == 0 {
        proof {
            assert(states_view(out@) =~= sp_drain(s@, fuel as nat));
        }
        return out;
    }
    let f1 = fuel - 1;
    let ghost sv = s@;
    let mut s = s;
    match crate::store::queue_pop_front(&mut s.forks) {
        None => {
            out.push(s);
            proof {
                assert(states_view(out@) =~= sp_drain(sv, fuel as nat));
            }
            out
        },
        Some(f) => {
            let branches = run_fork(f, s, f1);
            let ghost brv = states_view(branches@);
            let mut i: usize = 0;
            while i < branches.len()
                invariant
                    i <= branches.len(),
                    states_view(branches@) == brv,
                    sp_drain(sv, fuel as nat) == states_view(out@) + sp_drain_all(
                        brv,
                        i as int,
                        f1 as nat,
                    ),
                decreases branches.len() - i,
            {
                let ghost outpre = out@;
                let mut part = drain_fuel(branches[i].clone(), f1);
                proof {
                    assert(brv[i as int] == branches@[i as int]@);
                }
                out.append(&mut part);
                proof {
                    assert(states_view(outpre) + sp_drain_all(brv, i as int, f1 as nat)
                        =~= states_view(out@) + sp_drain_all(brv, i as int + 1, f1 as nat));
                }
                i = i + 1;
            }
            proof {
                assert(sp_drain_all(brv, branches@.len() as int, f1 as nat)
                    =~= Seq::<StateV>::empty());
                assert(states_view(out@) =~= states_view(out@) + sp_drain_all(
                    brv,
                    branches@.len() as int,
                    f1 as nat,
                ));
            }
            out
        },
    }
}

} // verus!
