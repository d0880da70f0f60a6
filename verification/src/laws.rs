//! Engine laws: properties of the search proved once and for all over
//! the specification interpreter.

use crate::engine::{
    opt_seq, sp_apply, sp_apply_list, sp_attempt, sp_bind, sp_extract, sp_file, sp_file_ids,
    sp_run_fork, sp_run_projs, sp_subscribe, sp_unify, sp_unify_elems, sp_unlink, AttemptV,
};
use crate::goal::{watch_ids_seq, Projection as Proj, WatchIds};
use crate::goal::{Fork, Goal, Projection};
use crate::state::{chase_budget, pair_first, pair_second, sp_walk, StateV};
use crate::value::{is_ground, val_like, LVar, Val};
use vstd::prelude::*;

verus! {

/// The sequence rule of unification: once both sides resolve to
/// sequences, unequal lengths fail outright, and equal lengths reduce
/// to element-wise unification, left to right.
pub proof fn lemma_unify_vec_lengths(s: StateV, a: Val, b: Val, aw: Val, bw: Val, fuel: nat)
    requires
        fuel > 0,
        sp_walk(s.values, a, chase_budget(s.values)) == Some(aw),
        sp_walk(s.values, b, chase_budget(s.values)) == Some(bw),
        aw is Vec,
        bw is Vec,
    ensures
        (aw->Vec_0)@.len() != (bw->Vec_0)@.len() ==> sp_unify(s, a, b, fuel) is None,
        (aw->Vec_0)@.len() == (bw->Vec_0)@.len() ==> sp_unify(s, a, b, fuel) == sp_unify_elems(
            s,
            (aw->Vec_0)@,
            (bw->Vec_0)@,
            0,
            (fuel - 1) as nat,
        ),
{
}

/// Disjunctive order: a fork queued by `either` runs both branches
/// against the same state, and the successor states are exactly the
/// successful branch outcomes, first branch first.
pub proof fn lemma_either_branches(a: Goal, b: Goal, s: StateV, fuel: nat)
    requires
        fuel > 0,
    ensures
        sp_run_fork(
            Fork::Two(std::rc::Rc::new(a), std::rc::Rc::new(b)),
            s,
            fuel,
        ) == opt_seq(sp_apply(a, s, (fuel - 1) as nat)) + opt_seq(
            sp_apply(b, s, (fuel - 1) as nat),
        ),
{
}

/// Applying `either` defers: the state is unchanged but for the new
/// fork at the end of the queue, and nothing is attempted eagerly.
pub proof fn lemma_either_defers(a: Goal, b: Goal, s: StateV, fuel: nat)
    requires
        fuel > 0,
    ensures
        forall|ra: std::rc::Rc<Goal>, rb: std::rc::Rc<Goal>|
            *ra == a && *rb == b ==> sp_apply(
                Goal::Either(ra, rb),
                s,
                fuel,
            ) == Some(StateV { forks: s.forks.push(Fork::Two(ra, rb)), ..s }),
{
}

/// A woken element-of constraint forks one branch per element: each
/// branch unifies the item with its element, in element order, against
/// the state the fork was popped in.
pub proof fn lemma_member_branches(item: Val, es: std::rc::Rc<Vec<Val>>, s: StateV, fuel: nat)
    requires
        fuel > 0,
    ensures
        sp_run_fork(Fork::Branches(item, es), s, fuel) == member_outcomes(
            s,
            item,
            es@,
            0,
            fuel,
        ),
{
    lemma_member_branches_from(item, es@, s, 0, fuel);
}

/// The branch outcomes of an element-of fork from position `i` on.
pub open spec fn member_outcomes(s: StateV, item: Val, es: Seq<Val>, i: int, fuel: nat) -> Seq<
    StateV,
>
    decreases es.len() - i,
{
    if 0 <= i < es.len() {
        opt_seq(sp_unify(s, item, es[i], (fuel - 1) as nat)) + member_outcomes(
            s,
            item,
            es,
            i + 1,
            fuel,
        )
    } else {
        Seq::empty()
    }
}

proof fn lemma_member_branches_from(item: Val, es: Seq<Val>, s: StateV, i: int, fuel: nat)
    requires
        fuel > 0,
    ensures
        crate::engine::sp_member_branches(s, item, es, i, fuel) == member_outcomes(
            s,
            item,
            es,
            i,
            fuel,
        ),
    decreases es.len() - i,
{
    if 0 <= i < es.len() {
        lemma_member_branches_from(item, es, s, i + 1, fuel);
    }
}

/// The element-of count law: when the item is a variable that is
/// unbound and unwatched, every branch of a woken element-of fork
/// succeeds, so a collection of `n` elements yields exactly `n`
/// successor states, in element order; the branch for element `i`
/// binds the variable to that element as resolved (and leaves the
/// state unchanged when the element resolves to the variable itself).
pub proof fn lemma_member_count(x: LVar, es: std::rc::Rc<Vec<Val>>, s: StateV, fuel: nat)
    requires
        fuel > 2,
        !s.values.dom().contains(x.id),
        !s.watch_index.dom().contains(x.id),
        forall|i: int|
            0 <= i < es@.len() ==> sp_walk(
                s.values,
                #[trigger] es@[i],
                chase_budget(s.values),
            ) is Some,
    ensures
        sp_run_fork(Fork::Branches(Val::Var(x), es), s, fuel).len() == es@.len(),
        forall|i: int|
            0 <= i < es@.len() ==> sp_run_fork(Fork::Branches(Val::Var(x), es), s, fuel)[i]
                == member_state(s, x, es@[i]),
{
    lemma_member_branches(Val::Var(x), es, s, fuel);
    lemma_member_count_from(x, es@, s, 0, fuel);
}

/// The state a single element-of branch ends in: the variable bound to
/// the element's resolved form, or the state itself when the element
/// resolves back to the variable.
pub open spec fn member_state(s: StateV, x: LVar, e: Val) -> StateV {
    let ew = sp_walk(s.values, e, chase_budget(s.values))->Some_0;
    if ew == Val::Var(x) {
        s
    } else {
        StateV { values: s.values.insert(x.id, ew), ..s }
    }
}

proof fn lemma_member_count_from(x: LVar, es: Seq<Val>, s: StateV, i: int, fuel: nat)
    requires
        fuel > 2,
        !s.values.dom().contains(x.id),
        !s.watch_index.dom().contains(x.id),
        forall|j: int|
            0 <= j < es.len() ==> sp_walk(
                s.values,
                #[trigger] es[j],
                chase_budget(s.values),
            ) is Some,
        0 <= i <= es.len(),
    ensures
        member_outcomes(s, Val::Var(x), es, i, fuel).len() == es.len() - i,
        forall|j: int|
            i <= j < es.len() ==> member_outcomes(s, Val::Var(x), es, i, fuel)[j - i]
                == member_state(s, x, es[j]),
    decreases es.len() - i,
{
    if i < es.len() {
        lemma_member_count_from(x, es, s, i + 1, fuel);
        let f1 = (fuel - 1) as nat;
        let ew = sp_walk(s.values, es[i], chase_budget(s.values))->Some_0;
        assert(sp_walk(s.values, Val::Var(x), chase_budget(s.values)) == Some(Val::Var(x)));
        if ew != Val::Var(x) {
            assert(sp_unify(s, Val::Var(x), es[i], f1) == sp_bind(s, x, ew, (f1 - 1) as nat));
        }
    }
}

/// Unification of already resolved atoms is symmetric: when both sides
/// resolve to integers, strings or empty-list markers, the two
/// orientations agree exactly.
pub proof fn lemma_unify_atoms_symmetric(s: StateV, a: Val, b: Val, fuel: nat)
    requires
        sp_walk(s.values, a, chase_budget(s.values)) matches Some(aw) && (aw is Int || aw is Str
            || aw is Nil),
        sp_walk(s.values, b, chase_budget(s.values)) matches Some(bw) && (bw is Int || bw is Str
            || bw is Nil),
    ensures
        sp_unify(s, a, b, fuel) == sp_unify(s, b, a, fuel),
{
}

/// The goals of a conjunction shortcut: a failing conjunct prevents
/// every later one from being applied.
pub proof fn lemma_all_shortcuts(s: StateV, goals: Seq<Goal>, i: int, fuel: nat)
    requires
        0 <= i < goals.len(),
        fuel > 0,
        sp_apply(goals[i], s, (fuel - 1) as nat) is None,
    ensures
        crate::engine::sp_apply_list(s, goals, i, fuel) is None,
{
}

/// A successful chase stays the same under any larger step budget.
pub proof fn lemma_walk_budget_mono(m: Map<u64, Val>, v: Val, n: nat, n2: nat)
    requires
        sp_walk(m, v, n) is Some,
        n2 >= n,
    ensures
        sp_walk(m, v, n2) == sp_walk(m, v, n),
    decreases n,
{
    match v {
        Val::Var(x) => {
            if m.dom().contains(x.id) {
                lemma_walk_budget_mono(m, m[x.id], (n - 1) as nat, (n2 - 1) as nat);
            }
        },
        _ => {},
    }
}

/// Bindings are respected: once a variable is bound, unifying against
/// the variable behaves exactly as unifying against its binding, so
/// long as the variable's chase terminates.
pub proof fn lemma_unify_respects_bindings(s: StateV, v: LVar, x: Val, fuel: nat)
    requires
        s.values.dom().contains(v.id),
        sp_walk(s.values, Val::Var(v), chase_budget(s.values)) is Some,
    ensures
        sp_unify(s, Val::Var(v), x, fuel) == sp_unify(s, s.values[v.id], x, fuel),
{
    let n = chase_budget(s.values);
    assert(n >= 1) by {
        if n == 0 {
            assert(sp_walk(s.values, Val::Var(v), n) is None);
        }
    }
    lemma_walk_budget_mono(s.values, s.values[v.id], (n - 1) as nat, n);
}

/// Unification of ground values is symmetric: with no variable on
/// either side the two orientations agree exactly, state included.
pub proof fn lemma_unify_ground_symmetric(s: StateV, a: Val, b: Val, fuel: nat)
    requires
        is_ground(a),
        is_ground(b),
    ensures
        sp_unify(s, a, b, fuel) == sp_unify(s, b, a, fuel),
    decreases fuel, 0nat,
{
    if fuel > 0 {
        let f1 = (fuel - 1) as nat;
        let n = chase_budget(s.values);
        assert(sp_walk(s.values, a, n) == Some(a));
        assert(sp_walk(s.values, b, n) == Some(b));
        match (a, b) {
            (Val::Pair(a1, a2), Val::Pair(b1, b2)) => {
                lemma_unify_ground_symmetric(s, pair_first(a), pair_first(b), f1);
                match sp_unify(s, pair_first(a), pair_first(b), f1) {
                    None => {},
                    Some(s1) => {
                        lemma_unify_ground_symmetric(s1, pair_second(a), pair_second(b), f1);
                    },
                }
            },
            (Val::Vec(xs), Val::Vec(ys)) => {
                if xs@.len() == ys@.len() {
                    lemma_unify_elems_ground_symmetric(s, xs@, ys@, 0, f1);
                }
            },
            _ => {},
        }
    }
}

proof fn lemma_unify_elems_ground_symmetric(s: StateV, xs: Seq<Val>, ys: Seq<Val>, i: int, fuel: nat)
    requires
        xs.len() == ys.len(),
        forall|j: int| 0 <= j < xs.len() ==> is_ground(#[trigger] xs[j]),
        forall|j: int| 0 <= j < ys.len() ==> is_ground(#[trigger] ys[j]),
    ensures
        sp_unify_elems(s, xs, ys, i, fuel) == sp_unify_elems(s, ys, xs, i, fuel),
    decreases fuel, xs.len() - i,
{
    if 0 <= i < xs.len() && fuel > 0 {
        let f1 = (fuel - 1) as nat;
        lemma_unify_ground_symmetric(s, xs[i], ys[i], f1);
        match sp_unify(s, xs[i], ys[i], f1) {
            None => {},
            Some(s1) => {
                lemma_unify_elems_ground_symmetric(s1, xs, ys, i + 1, fuel);
            },
        }
    }
}

/// Unification of ground values is an equality test: it can only
/// succeed between structurally equal trees, and it never touches the
/// state.
pub proof fn lemma_unify_ground_sound(s: StateV, a: Val, b: Val, fuel: nat)
    requires
        is_ground(a),
        is_ground(b),
        sp_unify(s, a, b, fuel) is Some,
    ensures
        sp_unify(s, a, b, fuel) == Some(s),
        val_like(a, b),
    decreases fuel, 0nat,
{
    let f1 = (fuel - 1) as nat;
    let n = chase_budget(s.values);
    assert(sp_walk(s.values, a, n) == Some(a));
    assert(sp_walk(s.values, b, n) == Some(b));
    match (a, b) {
        (Val::Pair(a1, a2), Val::Pair(b1, b2)) => {
            lemma_unify_ground_sound(s, pair_first(a), pair_first(b), f1);
            lemma_unify_ground_sound(s, pair_second(a), pair_second(b), f1);
        },
        (Val::Vec(xs), Val::Vec(ys)) => {
            lemma_unify_elems_ground_sound(s, xs@, ys@, 0, f1);
        },
        _ => {},
    }
}

proof fn lemma_unify_elems_ground_sound(s: StateV, xs: Seq<Val>, ys: Seq<Val>, i: int, fuel: nat)
    requires
        xs.len() == ys.len(),
        forall|j: int| 0 <= j < xs.len() ==> is_ground(#[trigger] xs[j]),
        forall|j: int| 0 <= j < ys.len() ==> is_ground(#[trigger] ys[j]),
        sp_unify_elems(s, xs, ys, i, fuel) is Some,
        0 <= i,
    ensures
        sp_unify_elems(s, xs, ys, i, fuel) == Some(s),
        forall|j: int| i <= j < xs.len() ==> val_like(#[trigger] xs[j], ys[j]),
    decreases fuel, xs.len() - i,
{
    if 0 <= i < xs.len() {
        let f1 = (fuel - 1) as nat;
        lemma_unify_ground_sound(s, xs[i], ys[i], f1);
        lemma_unify_elems_ground_sound(s, xs, ys, i + 1, fuel);
    }
}

/// One substitution extends another when it keeps every existing
/// binding unchanged and at most adds new ones.
pub open spec fn extends(m1: Map<u64, Val>, m2: Map<u64, Val>) -> bool {
    &&& m1.dom().subset_of(m2.dom())
    &&& forall|k: u64| #[trigger] m1.dom().contains(k) ==> m2[k] == m1[k]
}

/// Extension is transitive.
proof fn lemma_extends_trans(m1: Map<u64, Val>, m2: Map<u64, Val>, m3: Map<u64, Val>)
    requires
        extends(m1, m2),
        extends(m2, m3),
    ensures
        extends(m1, m3),
{
    assert forall|k: u64| #[trigger] m1.dom().contains(k) implies m3[k] == m1[k] by {
        assert(m2.dom().contains(k));
    }
    assert forall|k: u64| m1.dom().contains(k) implies m3.dom().contains(k) by {
        assert(m2.dom().contains(k));
    }
    assert(m1.dom().subset_of(m3.dom()));
}

/// A chase that ends at a variable ends at an unbound one.
proof fn lemma_walk_ends_unbound(m: Map<u64, Val>, v: Val, n: nat, x: LVar)
    requires
        sp_walk(m, v, n) == Some(Val::Var(x)),
    ensures
        !m.dom().contains(x.id),
    decreases n,
{
    match v {
        Val::Var(y) => {
            if m.dom().contains(y.id) {
                lemma_walk_ends_unbound(m, m[y.id], (n - 1) as nat, x);
            }
        },
        _ => {},
    }
}

/// Unification only ever adds bindings: every binding of the input
/// state is present, unchanged, in a successful result.
pub proof fn lemma_unify_preserves_bindings(s: StateV, a: Val, b: Val, fuel: nat)
    requires
        sp_unify(s, a, b, fuel) is Some,
    ensures
        extends(s.values, sp_unify(s, a, b, fuel)->Some_0.values),
    decreases fuel, 4nat,
{
    let f1 = (fuel - 1) as nat;
    let n = chase_budget(s.values);
    let aw = sp_walk(s.values, a, n)->Some_0;
    let bw = sp_walk(s.values, b, n)->Some_0;
    match (aw, bw) {
        (Val::Var(x), Val::Var(y)) => {
            if x != y {
                lemma_walk_ends_unbound(s.values, a, n, x);
                lemma_bind_preserves_bindings(s, x, Val::Var(y), f1);
            }
        },
        (Val::Var(x), _) => {
            lemma_walk_ends_unbound(s.values, a, n, x);
            lemma_bind_preserves_bindings(s, x, bw, f1);
        },
        (_, Val::Var(y)) => {
            lemma_walk_ends_unbound(s.values, b, n, y);
            lemma_bind_preserves_bindings(s, y, aw, f1);
        },
        (Val::Pair(_, _), Val::Pair(_, _)) => {
            let s1 = sp_unify(s, pair_first(aw), pair_first(bw), f1)->Some_0;
            lemma_unify_preserves_bindings(s, pair_first(aw), pair_first(bw), f1);
            lemma_unify_preserves_bindings(s1, pair_second(aw), pair_second(bw), f1);
        },
        (Val::Vec(xs), Val::Vec(ys)) => {
            lemma_unify_elems_preserves_bindings(s, xs@, ys@, 0, f1);
        },
        _ => {},
    }
}

proof fn lemma_unify_elems_preserves_bindings(
    s: StateV,
    xs: Seq<Val>,
    ys: Seq<Val>,
    i: int,
    fuel: nat,
)
    requires
        sp_unify_elems(s, xs, ys, i, fuel) is Some,
    ensures
        extends(s.values, sp_unify_elems(s, xs, ys, i, fuel)->Some_0.values),
    decreases fuel, xs.len() - i + 5,
{
    if 0 <= i < xs.len() {
        let s1 = sp_unify(s, xs[i], ys[i], (fuel - 1) as nat)->Some_0;
        lemma_unify_preserves_bindings(s, xs[i], ys[i], (fuel - 1) as nat);
        lemma_unify_elems_preserves_bindings(s1, xs, ys, i + 1, fuel);
    }
}

proof fn lemma_bind_preserves_bindings(s: StateV, x: LVar, w: Val, fuel: nat)
    requires
        !s.values.dom().contains(x.id),
        sp_bind(s, x, w, fuel) is Some,
    ensures
        extends(s.values, sp_bind(s, x, w, fuel)->Some_0.values),
    decreases fuel, 3nat,
{
    let s1 = StateV { values: s.values.insert(x.id, w), ..s };
    assert(extends(s.values, s1.values));
    if s1.watch_index.dom().contains(x.id) {
        let wids = s1.watch_index[x.id];
        let s2 = StateV { watch_index: s1.watch_index.remove(x.id), ..s1 };
        let extracted = sp_extract(s2, wids, 0, Seq::empty());
        lemma_extract_keeps_values(s2, wids, 0, Seq::empty());
        lemma_run_projs_preserves_bindings(extracted.0, extracted.1, 0, (fuel - 1) as nat);
        lemma_extends_trans(
            s.values,
            s1.values,
            sp_run_projs(extracted.0, extracted.1, 0, (fuel - 1) as nat)->Some_0.values,
        );
    }
}

/// Watch extraction touches only the watch stores, never the bindings.
proof fn lemma_extract_keeps_values(s: StateV, wids: Seq<u64>, i: int, acc: Seq<Projection>)
    ensures
        sp_extract(s, wids, i, acc).0.values == s.values,
    decreases wids.len() - i,
{
    if 0 <= i < wids.len() {
        let wid = wids[i];
        if s.watch_table.dom().contains(wid) {
            let entry = s.watch_table[wid];
            let s1 = StateV { watch_table: s.watch_table.remove(wid), ..s };
            lemma_unlink_keeps_values(s1, watch_ids_seq(entry.ids), wid, 0);
            let s2 = sp_unlink(s1, watch_ids_seq(entry.ids), wid, 0);
            lemma_extract_keeps_values(s2, wids, i + 1, acc.push(entry.proj));
        } else {
            lemma_extract_keeps_values(s, wids, i + 1, acc);
        }
    }
}

proof fn lemma_unlink_keeps_values(s: StateV, vids: Seq<u64>, wid: u64, i: int)
    ensures
        sp_unlink(s, vids, wid, i).values == s.values,
    decreases vids.len() - i,
{
    if 0 <= i < vids.len() {
        let vid = vids[i];
        let s1 = if s.watch_index.dom().contains(vid) {
            StateV {
                watch_index: s.watch_index.insert(vid, crate::engine::remove_wid(
                    s.watch_index[vid],
                    wid,
                )),
                ..s
            }
        } else {
            s
        };
        lemma_unlink_keeps_values(s1, vids, wid, i + 1);
    }
}

proof fn lemma_run_projs_preserves_bindings(s: StateV, projs: Seq<Projection>, i: int, fuel: nat)
    requires
        sp_run_projs(s, projs, i, fuel) is Some,
    ensures
        extends(s.values, sp_run_projs(s, projs, i, fuel)->Some_0.values),
    decreases fuel, projs.len() - i + 5,
{
    if 0 <= i < projs.len() {
        let s1 = sp_subscribe(s, projs[i], (fuel - 1) as nat)->Some_0;
        lemma_subscribe_preserves_bindings(s, projs[i], (fuel - 1) as nat);
        lemma_run_projs_preserves_bindings(s1, projs, i + 1, fuel);
    }
}

proof fn lemma_subscribe_preserves_bindings(s: StateV, proj: Projection, fuel: nat)
    requires
        sp_subscribe(s, proj, fuel) is Some,
    ensures
        extends(s.values, sp_subscribe(s, proj, fuel)->Some_0.values),
    decreases fuel, 2nat,
{
    match sp_attempt(s, proj, (fuel - 1) as nat) {
        AttemptV::Done(o) => {
            lemma_attempt_preserves_bindings(s, proj, (fuel - 1) as nat);
        },
        AttemptV::Waiting(ids) => {
            lemma_file_keeps_values(s, proj, ids);
        },
    }
}

/// Filing a watch touches only the watch stores, never the bindings.
proof fn lemma_file_keeps_values(s: StateV, proj: Projection, ids: WatchIds)
    requires
        sp_file(s, proj, ids) is Some,
    ensures
        sp_file(s, proj, ids)->Some_0.values == s.values,
{
    let wid = s.next_watch;
    let s1 = StateV {
        watch_table: s.watch_table.insert(wid, crate::goal::WatchEntry { proj, ids }),
        next_watch: (s.next_watch + 1) as u64,
        ..s
    };
    lemma_file_ids_keeps_values(s1, watch_ids_seq(ids), wid, 0);
}

proof fn lemma_file_ids_keeps_values(s: StateV, vids: Seq<u64>, wid: u64, i: int)
    ensures
        sp_file_ids(s, vids, wid, i).values == s.values,
    decreases vids.len() - i,
{
    if 0 <= i < vids.len() {
        let vid = vids[i];
        let cur = if s.watch_index.dom().contains(vid) {
            s.watch_index[vid]
        } else {
            Seq::empty()
        };
        lemma_file_ids_keeps_values(
            StateV { watch_index: s.watch_index.insert(vid, cur.push(wid)), ..s },
            vids,
            wid,
            i + 1,
        );
    }
}

proof fn lemma_attempt_preserves_bindings(s: StateV, proj: Projection, fuel: nat)
    requires
        sp_attempt(s, proj, fuel) matches AttemptV::Done(o) && o is Some,
    ensures
        sp_attempt(s, proj, fuel) matches AttemptV::Done(o) && o matches Some(s2) && extends(
            s.values,
            s2.values,
        ),
    decreases fuel, 1nat,
{
    if fuel > 0 {
        let f1 = (fuel - 1) as nat;
        let budget = chase_budget(s.values);
        match proj {
            Proj::Map1(m) => {
                let aw = sp_walk(s.values, m.a, budget)->Some_0;
                let bw = sp_walk(s.values, m.b, budget)->Some_0;
                match (aw, bw) {
                    (Val::Var(_), Val::Var(_)) => {},
                    (Val::Int(xa), _) => {
                        let yv = crate::goal::num_fn_spec(m.a_to_b, xa as int);
                        if i64::MIN <= yv <= i64::MAX {
                            lemma_unify_preserves_bindings(s, Val::Int(yv as i64), bw, f1);
                        }
                    },
                    (_, Val::Int(yb)) => {
                        let xv = crate::goal::num_fn_spec(m.b_to_a, yb as int);
                        if i64::MIN <= xv <= i64::MAX {
                            lemma_unify_preserves_bindings(s, Val::Int(xv as i64), aw, f1);
                        }
                    },
                    _ => {},
                }
            },
            Proj::Map2(m) => {
                let aw = sp_walk(s.values, m.a, budget)->Some_0;
                let bw = sp_walk(s.values, m.b, budget)->Some_0;
                let cw = sp_walk(s.values, m.c, budget)->Some_0;
                match (aw, bw, cw) {
                    (Val::Int(xa), Val::Int(xb), _) => {
                        let zv = crate::goal::num_fn2_spec(m.ab_to_c, xa as int, xb as int);
                        if i64::MIN <= zv <= i64::MAX {
                            lemma_unify_preserves_bindings(s, Val::Int(zv as i64), cw, f1);
                        }
                    },
                    (Val::Int(xa), _, Val::Int(xc)) => {
                        let yv = crate::goal::num_fn2_spec(m.ac_to_b, xa as int, xc as int);
                        if i64::MIN <= yv <= i64::MAX {
                            lemma_unify_preserves_bindings(s, Val::Int(yv as i64), bw, f1);
                        }
                    },
                    (_, Val::Int(xb), Val::Int(xc)) => {
                        let xv = crate::goal::num_fn2_spec(m.bc_to_a, xb as int, xc as int);
                        if i64::MIN <= xv <= i64::MAX {
                            lemma_unify_preserves_bindings(s, Val::Int(xv as i64), aw, f1);
                        }
                    },
                    _ => {},
                }
            },
            Proj::Project1(a, f) => {
                let aw = sp_walk(s.values, a, budget)->Some_0;
                match aw {
                    Val::Int(v) => match f {
                        crate::goal::GoalFn1::UnifyMapped(nf, target) => {
                            let yv = crate::goal::num_fn_spec(nf, v as int);
                            if i64::MIN <= yv <= i64::MAX {
                                lemma_unify_preserves_bindings(
                                    s,
                                    Val::Int(yv as i64),
                                    Val::Int(target),
                                    f1,
                                );
                            }
                        },
                    },
                    _ => {},
                }
            },
            Proj::Project2(a, b, f) => {
                let aw = sp_walk(s.values, a, budget)->Some_0;
                let bw = sp_walk(s.values, b, budget)->Some_0;
                match (aw, bw) {
                    (Val::Int(xa), Val::Int(yb)) => match f {
                        crate::goal::GoalFn2::UnifyMapped(nf, target) => {
                            let zv = crate::goal::num_fn2_spec(nf, xa as int, yb as int);
                            if i64::MIN <= zv <= i64::MAX {
                                lemma_unify_preserves_bindings(
                                    s,
                                    Val::Int(zv as i64),
                                    Val::Int(target),
                                    f1,
                                );
                            }
                        },
                    },
                    _ => {},
                }
            },
            _ => {},
        }
    }
}

/// The first conjunct of a `Both` goal.
pub open spec fn both_first(g: Goal) -> Goal {
    *(g->Both_0)
}

/// The second conjunct of a `Both` goal.
pub open spec fn both_second(g: Goal) -> Goal {
    *(g->Both_1)
}

/// Goal application only ever adds bindings: every binding of the
/// input state is present, unchanged, in a successful result.
pub proof fn lemma_apply_preserves_bindings(g: Goal, s: StateV, fuel: nat)
    requires
        sp_apply(g, s, fuel) is Some,
    ensures
        extends(s.values, sp_apply(g, s, fuel)->Some_0.values),
    decreases fuel, 4nat,
{
    let f1 = (fuel - 1) as nat;
    match g {
        Goal::Unify(a, b) => {
            lemma_unify_preserves_bindings(s, a, b, f1);
        },
        Goal::Both(a, b) => {
            let s1 = sp_apply(both_first(g), s, f1)->Some_0;
            lemma_apply_preserves_bindings(both_first(g), s, f1);
            lemma_apply_preserves_bindings(both_second(g), s1, f1);
        },
        Goal::All(gs) => {
            lemma_apply_list_preserves_bindings(s, gs@, 0, f1);
        },
        Goal::Project(p) => {
            lemma_subscribe_preserves_bindings(s, p, f1);
        },
        _ => {},
    }
}

proof fn lemma_apply_list_preserves_bindings(s: StateV, goals: Seq<Goal>, i: int, fuel: nat)
    requires
        sp_apply_list(s, goals, i, fuel) is Some,
    ensures
        extends(s.values, sp_apply_list(s, goals, i, fuel)->Some_0.values),
    decreases fuel, goals.len() - i + 5,
{
    if 0 <= i < goals.len() {
        let s1 = sp_apply(goals[i], s, (fuel - 1) as nat)->Some_0;
        lemma_apply_preserves_bindings(goals[i], s, (fuel - 1) as nat);
        lemma_apply_list_preserves_bindings(s1, goals, i + 1, fuel);
    }
}

/// A successful unification stays the same under any larger budget.
pub proof fn lemma_unify_fuel_mono(s: StateV, a: Val, b: Val, fuel: nat, fuel2: nat)
    requires
        sp_unify(s, a, b, fuel) is Some,
        fuel2 >= fuel,
    ensures
        sp_unify(s, a, b, fuel2) == sp_unify(s, a, b, fuel),
    decreases fuel, 4nat,
{
    let f1 = (fuel - 1) as nat;
    let g1 = (fuel2 - 1) as nat;
    let n = chase_budget(s.values);
    let aw = sp_walk(s.values, a, n)->Some_0;
    let bw = sp_walk(s.values, b, n)->Some_0;
    match (aw, bw) {
        (Val::Var(x), Val::Var(y)) => {
            if x != y {
                lemma_bind_fuel_mono(s, x, Val::Var(y), f1, g1);
            }
        },
        (Val::Var(x), _) => {
            lemma_bind_fuel_mono(s, x, bw, f1, g1);
        },
        (_, Val::Var(y)) => {
            lemma_bind_fuel_mono(s, y, aw, f1, g1);
        },
        (Val::Pair(_, _), Val::Pair(_, _)) => {
            let s1 = sp_unify(s, pair_first(aw), pair_first(bw), f1)->Some_0;
            lemma_unify_fuel_mono(s, pair_first(aw), pair_first(bw), f1, g1);
            lemma_unify_fuel_mono(s1, pair_second(aw), pair_second(bw), f1, g1);
        },
        (Val::Vec(xs), Val::Vec(ys)) => {
            lemma_unify_elems_fuel_mono(s, xs@, ys@, 0, f1, g1);
        },
        _ => {},
    }
}

proof fn lemma_unify_elems_fuel_mono(
    s: StateV,
    xs: Seq<Val>,
    ys: Seq<Val>,
    i: int,
    fuel: nat,
    fuel2: nat,
)
    requires
        sp_unify_elems(s, xs, ys, i, fuel) is Some,
        fuel2 >= fuel,
    ensures
        sp_unify_elems(s, xs, ys, i, fuel2) == sp_unify_elems(s, xs, ys, i, fuel),
    decreases fuel, xs.len() - i + 5,
{
    if 0 <= i < xs.len() {
        let s1 = sp_unify(s, xs[i], ys[i], (fuel - 1) as nat)->Some_0;
        lemma_unify_fuel_mono(s, xs[i], ys[i], (fuel - 1) as nat, (fuel2 - 1) as nat);
        lemma_unify_elems_fuel_mono(s1, xs, ys, i + 1, fuel, fuel2);
    }
}

proof fn lemma_bind_fuel_mono(s: StateV, x: LVar, w: Val, fuel: nat, fuel2: nat)
    requires
        sp_bind(s, x, w, fuel) is Some,
        fuel2 >= fuel,
    ensures
        sp_bind(s, x, w, fuel2) == sp_bind(s, x, w, fuel),
    decreases fuel, 3nat,
{
    let s1 = StateV { values: s.values.insert(x.id, w), ..s };
    if s1.watch_index.dom().contains(x.id) {
        let wids = s1.watch_index[x.id];
        let s2 = StateV { watch_index: s1.watch_index.remove(x.id), ..s1 };
        let extracted = sp_extract(s2, wids, 0, Seq::empty());
        lemma_run_projs_fuel_mono(
            extracted.0,
            extracted.1,
            0,
            (fuel - 1) as nat,
            (fuel2 - 1) as nat,
        );
    }
}

proof fn lemma_run_projs_fuel_mono(
    s: StateV,
    projs: Seq<Projection>,
    i: int,
    fuel: nat,
    fuel2: nat,
)
    requires
        sp_run_projs(s, projs, i, fuel) is Some,
        fuel2 >= fuel,
    ensures
        sp_run_projs(s, projs, i, fuel2) == sp_run_projs(s, projs, i, fuel),
    decreases fuel, projs.len() - i + 5,
{
    if 0 <= i < projs.len() {
        let s1 = sp_subscribe(s, projs[i], (fuel - 1) as nat)->Some_0;
        lemma_subscribe_fuel_mono(s, projs[i], (fuel - 1) as nat, (fuel2 - 1) as nat);
        lemma_run_projs_fuel_mono(s1, projs, i + 1, fuel, fuel2);
    }
}

proof fn lemma_subscribe_fuel_mono(s: StateV, proj: Projection, fuel: nat, fuel2: nat)
    requires
        sp_subscribe(s, proj, fuel) is Some,
        fuel2 >= fuel,
    ensures
        sp_subscribe(s, proj, fuel2) == sp_subscribe(s, proj, fuel),
    decreases fuel, 2nat,
{
    lemma_attempt_fuel_mono(s, proj, (fuel - 1) as nat, (fuel2 - 1) as nat);
}

/// A projection attempt that concludes success or asks to wait is
/// stable under a larger budget; only budget-starved failures are not.
proof fn lemma_attempt_fuel_mono(s: StateV, proj: Projection, fuel: nat, fuel2: nat)
    requires
        !(sp_attempt(s, proj, fuel) matches AttemptV::Done(o) && o is None),
        fuel2 >= fuel,
    ensures
        sp_attempt(s, proj, fuel2) == sp_attempt(s, proj, fuel),
    decreases fuel, 1nat,
{
    let f1 = (fuel - 1) as nat;
    let g1 = (fuel2 - 1) as nat;
    let budget = chase_budget(s.values);
    match proj {
        Proj::Map1(m) => {
            let aw = sp_walk(s.values, m.a, budget)->Some_0;
            let bw = sp_walk(s.values, m.b, budget)->Some_0;
            match (aw, bw) {
                (Val::Var(_), Val::Var(_)) => {},
                (Val::Int(xa), _) => {
                    let yv = crate::goal::num_fn_spec(m.a_to_b, xa as int);
                    if i64::MIN <= yv <= i64::MAX {
                        lemma_unify_fuel_mono(s, Val::Int(yv as i64), bw, f1, g1);
                    }
                },
                (_, Val::Int(yb)) => {
                    let xv = crate::goal::num_fn_spec(m.b_to_a, yb as int);
                    if i64::MIN <= xv <= i64::MAX {
                        lemma_unify_fuel_mono(s, Val::Int(xv as i64), aw, f1, g1);
                    }
                },
                _ => {},
            }
        },
        Proj::Map2(m) => {
            let aw = sp_walk(s.values, m.a, budget)->Some_0;
            let bw = sp_walk(s.values, m.b, budget)->Some_0;
            let cw = sp_walk(s.values, m.c, budget)->Some_0;
            match (aw, bw, cw) {
                (Val::Int(xa), Val::Int(xb), _) => {
                    let zv = crate::goal::num_fn2_spec(m.ab_to_c, xa as int, xb as int);
                    if i64::MIN <= zv <= i64::MAX {
                        lemma_unify_fuel_mono(s, Val::Int(zv as i64), cw, f1, g1);
                    }
                },
                (Val::Int(xa), _, Val::Int(xc)) => {
                    let yv = crate::goal::num_fn2_spec(m.ac_to_b, xa as int, xc as int);
                    if i64::MIN <= yv <= i64::MAX {
                        lemma_unify_fuel_mono(s, Val::Int(yv as i64), bw, f1, g1);
                    }
                },
                (_, Val::Int(xb), Val::Int(xc)) => {
                    let xv = crate::goal::num_fn2_spec(m.bc_to_a, xb as int, xc as int);
                    if i64::MIN <= xv <= i64::MAX {
                        lemma_unify_fuel_mono(s, Val::Int(xv as i64), aw, f1, g1);
                    }
                },
                _ => {},
            }
        },
        Proj::Project1(a, f) => {
            let aw = sp_walk(s.values, a, budget)->Some_0;
            match aw {
                Val::Int(v) => match f {
                    crate::goal::GoalFn1::UnifyMapped(nf, target) => {
                        let yv = crate::goal::num_fn_spec(nf, v as int);
                        if i64::MIN <= yv <= i64::MAX {
                            lemma_unify_fuel_mono(
                                s,
                                Val::Int(yv as i64),
                                Val::Int(target),
                                f1,
                                g1,
                            );
                        }
                    },
                },
                _ => {},
            }
        },
        Proj::Project2(a, b, f) => {
            let aw = sp_walk(s.values, a, budget)->Some_0;
            let bw = sp_walk(s.values, b, budget)->Some_0;
            match (aw, bw) {
                (Val::Int(xa), Val::Int(yb)) => match f {
                    crate::goal::GoalFn2::UnifyMapped(nf, target) => {
                        let zv = crate::goal::num_fn2_spec(nf, xa as int, yb as int);
                        if i64::MIN <= zv <= i64::MAX {
                            lemma_unify_fuel_mono(
                                s,
                                Val::Int(zv as i64),
                                Val::Int(target),
                                f1,
                                g1,
                            );
                        }
                    },
                },
                _ => {},
            }
        },
        _ => {},
    }
}

/// A successful goal application stays the same under any larger
/// budget.
pub proof fn lemma_apply_fuel_mono(g: Goal, s: StateV, fuel: nat, fuel2: nat)
    requires
        sp_apply(g, s, fuel) is Some,
        fuel2 >= fuel,
    ensures
        sp_apply(g, s, fuel2) == sp_apply(g, s, fuel),
    decreases fuel, 4nat,
{
    let f1 = (fuel - 1) as nat;
    let g1 = (fuel2 - 1) as nat;
    match g {
        Goal::Unify(a, b) => {
            lemma_unify_fuel_mono(s, a, b, f1, g1);
        },
        Goal::Both(a, b) => {
            let s1 = sp_apply(both_first(g), s, f1)->Some_0;
            lemma_apply_fuel_mono(both_first(g), s, f1, g1);
            lemma_apply_fuel_mono(both_second(g), s1, f1, g1);
        },
        Goal::All(gs) => {
            lemma_apply_list_fuel_mono(s, gs@, 0, f1, g1);
        },
        Goal::Project(p) => {
            lemma_subscribe_fuel_mono(s, p, f1, g1);
        },
        _ => {},
    }
}

proof fn lemma_apply_list_fuel_mono(s: StateV, goals: Seq<Goal>, i: int, fuel: nat, fuel2: nat)
    requires
        sp_apply_list(s, goals, i, fuel) is Some,
        fuel2 >= fuel,
    ensures
        sp_apply_list(s, goals, i, fuel2) == sp_apply_list(s, goals, i, fuel),
    decreases fuel, goals.len() - i + 5,
{
    if 0 <= i < goals.len() {
        let s1 = sp_apply(goals[i], s, (fuel - 1) as nat)->Some_0;
        lemma_apply_fuel_mono(goals[i], s, (fuel - 1) as nat, (fuel2 - 1) as nat);
        lemma_apply_list_fuel_mono(s1, goals, i + 1, fuel, fuel2);
    }
}

/// Conjunction composes at a uniform budget: a successful `both` is
/// the application of its first conjunct followed by its second, each
/// at the same budget the conjunction ran under.
pub proof fn lemma_both_composes(ra: std::rc::Rc<Goal>, rb: std::rc::Rc<Goal>, s: StateV, fuel: nat)
    requires
        sp_apply(Goal::Both(ra, rb), s, fuel) is Some,
    ensures
        sp_apply(both_first(Goal::Both(ra, rb)), s, fuel) is Some,
        sp_apply(Goal::Both(ra, rb), s, fuel) == sp_apply(
            both_second(Goal::Both(ra, rb)),
            sp_apply(both_first(Goal::Both(ra, rb)), s, fuel)->Some_0,
            fuel,
        ),
{
    let g = Goal::Both(ra, rb);
    let f1 = (fuel - 1) as nat;
    let s1 = sp_apply(both_first(g), s, f1)->Some_0;
    lemma_apply_fuel_mono(both_first(g), s, f1, fuel);
    lemma_apply_fuel_mono(both_second(g), s1, f1, fuel);
}

/// Conjunction lists compose at a uniform budget: a successful `all`
/// steps through its head conjunct at the budget the whole ran under.
pub proof fn lemma_all_composes(s: StateV, goals: Seq<Goal>, i: int, fuel: nat)
    requires
        0 <= i < goals.len(),
        sp_apply_list(s, goals, i, fuel) is Some,
    ensures
        sp_apply(goals[i], s, fuel) is Some,
        sp_apply_list(s, goals, i, fuel) == sp_apply_list(
            sp_apply(goals[i], s, fuel)->Some_0,
            goals,
            i + 1,
            fuel,
        ),
{
    let f1 = (fuel - 1) as nat;
    let s1 = sp_apply(goals[i], s, f1)->Some_0;
    lemma_apply_fuel_mono(goals[i], s, f1, fuel);
    lemma_apply_list_fuel_mono(s1, goals, i + 1, fuel, fuel);
}

/// A unification goal composes at a uniform budget: applying it is
/// unifying its operands at the budget the application ran under.
pub proof fn lemma_unify_goal_composes(a: Val, b: Val, s: StateV, fuel: nat)
    requires
        sp_apply(Goal::Unify(a, b), s, fuel) is Some,
    ensures
        sp_apply(Goal::Unify(a, b), s, fuel) == sp_unify(s, a, b, fuel),
{
    lemma_unify_fuel_mono(s, a, b, (fuel - 1) as nat, fuel);
}

/// A projection goal composes at a uniform budget: applying it is
/// subscribing the projection at the budget the application ran under.
pub proof fn lemma_project_composes(p: Projection, s: StateV, fuel: nat)
    requires
        sp_apply(Goal::Project(p), s, fuel) is Some,
    ensures
        sp_apply(Goal::Project(p), s, fuel) == sp_subscribe(s, p, fuel),
{
    lemma_subscribe_fuel_mono(s, p, (fuel - 1) as nat, fuel);
}

} // verus!
