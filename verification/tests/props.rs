//! End-to-end scenarios and the engine's general properties exercised
//! on concrete values: confluence under goal reordering, unification
//! symmetry, watch idempotence, structural sharing, disjunctive
//! completeness, the sequence length rule, and the element-of count.

use canrun::goal::{
    all, any, assert_1, assert_2, both, either, map_1, map_2, member, project_1, project_2,
    unify, Goal, GoalFn1, GoalFn2, Member, NumFn, NumFn2, Pred1, Pred2, Projection,
};
use canrun::value::{pair_val, str_val, vec_val, IntoVal, LVarSource, Val};
use canrun::goal::Fork;
use canrun::Mapping;
use canrun::{State, UnifyError, Watch};
use itertools::Itertools;
use std::rc::Rc;

const FUEL: u64 = 100_000;

fn ints(ns: &[i64]) -> Val {
    vec_val(ns.iter().map(|n| Val::Int(*n)).collect())
}

#[test]
fn values_flow_between_vars() {
    let mut vs = LVarSource::new();
    let x = vs.fresh();
    let y = vs.fresh();
    let goal = both(unify(x, y), unify(1, x));
    let result = goal.query(&vec![y], &vs, FUEL);
    assert_eq!(result, vec![vec![Val::Int(1)]]);
}

#[test]
fn conflicting_unifications_fail() {
    let mut vs = LVarSource::new();
    let x = vs.fresh();
    let goal = both(unify(2, x), unify(1, x));
    let result = goal.query(&vec![x], &vs, FUEL);
    assert_eq!(result, Vec::<Vec<Val>>::new());
}

#[test]
fn mapping_checks_both_defined_sides() {
    let mut vs = LVarSource::new();
    let x = vs.fresh();
    let y = vs.fresh();
    let ok = all(vec![
        unify(x, 1),
        unify(y, 2),
        map_1(x, y, NumFn::AddConst(1), NumFn::SubConst(1)),
    ]);
    assert_eq!(
        ok.query(&vec![x, y], &vs, FUEL),
        vec![vec![Val::Int(1), Val::Int(2)]]
    );
    let bad = all(vec![
        unify(x, 1),
        unify(y, 3),
        map_1(x, y, NumFn::AddConst(1), NumFn::SubConst(1)),
    ]);
    assert_eq!(bad.query(&vec![x, y], &vs, FUEL), Vec::<Vec<Val>>::new());
}

#[test]
fn member_yields_elements_in_order() {
    let mut vs = LVarSource::new();
    let x = vs.fresh();
    let goal = member(x, ints(&[1, 2, 3]));
    let result = goal.query(&vec![x], &vs, FUEL);
    assert_eq!(
        result,
        vec![vec![Val::Int(1)], vec![Val::Int(2)], vec![Val::Int(3)]]
    );
}

#[test]
fn confluence_under_reordering() {
    // Every permutation of a conjunction produces the same multiset of
    // answers.
    let mut vs = LVarSource::new();
    let x = vs.fresh();
    let y = vs.fresh();
    let z = vs.fresh();
    let goals = vec![
        unify(x, 1),
        unify(y, 2),
        either(unify(z, 3), unify(z, 4)),
        member(y, ints(&[2, 5])),
    ];
    let n = goals.len();
    let mut seen: Vec<Vec<String>> = Vec::new();
    for perm in goals.into_iter().permutations(n) {
        let rows = all(perm).query(&vec![x, y, z], &vs, FUEL);
        let mut tags: Vec<String> = rows.iter().map(|r| format!("{:?}", r)).collect();
        tags.sort();
        seen.push(tags);
    }
    for tags in &seen {
        assert_eq!(tags, &seen[0]);
    }
    assert_eq!(seen[0].len(), 2);
}

#[test]
fn unify_symmetric_on_success_sets() {
    let mut vs = LVarSource::new();
    let x = vs.fresh();
    let y = vs.fresh();
    let cases: Vec<(Val, Val)> = vec![
        (Val::Int(1), Val::Int(1)),
        (Val::Int(1), Val::Int(2)),
        (x.into_val(), Val::Int(7)),
        (x.into_val(), y.into_val()),
        (ints(&[1, 2]), ints(&[1, 2])),
        (ints(&[1, 2]), ints(&[1, 3])),
        (x.into_val(), ints(&[1, 2])),
        (pair_val(Val::Int(1), Val::Nil), pair_val(Val::Int(1), Val::Nil)),
    ];
    for (a, b) in cases {
        // Query no variables: each surviving state yields one empty
        // row, so the row count is the solution count.
        let fwd = unify(a.clone(), b.clone()).query(&vec![], &vs, FUEL).len();
        let bwd = unify(b, a).query(&vec![], &vs, FUEL).len();
        assert_eq!(fwd, bwd);
    }
}

#[test]
fn unify_symmetric_resolved_values() {
    // Both orientations bind the queried variable to the same ground
    // value.
    let mut vs = LVarSource::new();
    let x = vs.fresh();
    let fwd = unify(x, 5).query(&vec![x], &vs, FUEL);
    let bwd = unify(5, x).query(&vec![x], &vs, FUEL);
    assert_eq!(fwd, bwd);
}

#[test]
fn watch_idempotence() {
    // Suspending the same projection twice produces the same answers
    // as suspending it once.
    let mut vs = LVarSource::new();
    let x = vs.fresh();
    let y = vs.fresh();
    let once = all(vec![
        map_1(x, y, NumFn::AddConst(1), NumFn::SubConst(1)),
        unify(x, 1),
    ]);
    let twice = all(vec![
        map_1(x, y, NumFn::AddConst(1), NumFn::SubConst(1)),
        map_1(x, y, NumFn::AddConst(1), NumFn::SubConst(1)),
        unify(x, 1),
    ]);
    assert_eq!(
        once.query(&vec![x, y], &vs, FUEL),
        twice.query(&vec![x, y], &vs, FUEL)
    );
}

#[test]
fn structural_sharing() {
    // A unification on a cloned state never changes the original.
    let mut vs = LVarSource::new();
    let x = vs.fresh();
    let original = State::new();
    let copy = original.clone();
    let extended = copy.unify(Val::Var(x), Val::Int(9)).unwrap();
    assert_eq!(extended.resolve_var(x).unwrap(), Val::Int(9));
    assert_eq!(original.resolve_var(x).unwrap(), Val::Var(x));
}

#[test]
fn disjunctive_completeness() {
    // either(g1, g2) yields exactly the concatenation of the two
    // branches' answers, order included.
    let mut vs = LVarSource::new();
    let x = vs.fresh();
    let g1 = unify(x, 1);
    let g2 = member(x, ints(&[2, 3]));
    let combined = either(g1.clone(), g2.clone()).query(&vec![x], &vs, FUEL);
    let mut expected = g1.query(&vec![x], &vs, FUEL);
    expected.extend(g2.query(&vec![x], &vs, FUEL));
    assert_eq!(combined, expected);
}

#[test]
fn any_explores_declared_order() {
    let mut vs = LVarSource::new();
    let x = vs.fresh();
    let goal = any(vec![unify(x, 3), unify(x, 1), unify(x, 2)]);
    assert_eq!(
        goal.query(&vec![x], &vs, FUEL),
        vec![vec![Val::Int(3)], vec![Val::Int(1)], vec![Val::Int(2)]]
    );
}

#[test]
fn sequence_length_rule() {
    let mut vs = LVarSource::new();
    let x = vs.fresh();
    let short = all(vec![unify(x, ints(&[1, 2])), unify(x, ints(&[1, 2, 3]))]);
    assert_eq!(short.query(&vec![x], &vs, FUEL), Vec::<Vec<Val>>::new());
    let y = vs.fresh();
    let elementwise = unify(
        vec_val(vec![Val::Int(1), y.into_val()]),
        ints(&[1, 4]),
    );
    assert_eq!(elementwise.query(&vec![y], &vs, FUEL), vec![vec![Val::Int(4)]]);
}

#[test]
fn assert_1_filters() {
    let mut vs = LVarSource::new();
    let x = vs.fresh();
    let goal = all(vec![member(x, ints(&[1, 2, 3])), assert_1(x, Pred1::LtConst(3))]);
    assert_eq!(
        goal.query(&vec![x], &vs, FUEL),
        vec![vec![Val::Int(1)], vec![Val::Int(2)]]
    );
}

#[test]
fn assert_2_filters() {
    let mut vs = LVarSource::new();
    let x = vs.fresh();
    let y = vs.fresh();
    let goal = all(vec![
        member(x, ints(&[1, 2])),
        member(y, ints(&[1, 2])),
        assert_2(x, y, Pred2::Lt),
    ]);
    assert_eq!(
        goal.query(&vec![x, y], &vs, FUEL),
        vec![vec![Val::Int(1), Val::Int(2)]]
    );
}

#[test]
fn project_1_builds_goal() {
    let mut vs = LVarSource::new();
    let x = vs.fresh();
    let goal = all(vec![
        unify(x, 4),
        project_1(x, GoalFn1::UnifyMapped(NumFn::MulConst(2), 8)),
    ]);
    assert_eq!(goal.query(&vec![x], &vs, FUEL), vec![vec![Val::Int(4)]]);
    let bad = all(vec![
        unify(x, 4),
        project_1(x, GoalFn1::UnifyMapped(NumFn::MulConst(2), 9)),
    ]);
    assert_eq!(bad.query(&vec![x], &vs, FUEL), Vec::<Vec<Val>>::new());
}

#[test]
fn project_2_waits_for_both() {
    let mut vs = LVarSource::new();
    let x = vs.fresh();
    let y = vs.fresh();
    let goal = all(vec![
        project_2(x, y, GoalFn2::UnifyMapped(NumFn2::Add, 5)),
        unify(x, 2),
        unify(y, 3),
    ]);
    assert_eq!(
        goal.query(&vec![x, y], &vs, FUEL),
        vec![vec![Val::Int(2), Val::Int(3)]]
    );
}

#[test]
fn map_2_derives_the_third() {
    let mut vs = LVarSource::new();
    let x = vs.fresh();
    let y = vs.fresh();
    let z = vs.fresh();
    let sum = map_2(x, y, z, NumFn2::Add, NumFn2::SubFrom, NumFn2::SubFrom);
    let goal = all(vec![sum, unify(x, 2), unify(z, 7)]);
    assert_eq!(
        goal.query(&vec![x, y, z], &vs, FUEL),
        vec![vec![Val::Int(2), Val::Int(5), Val::Int(7)]]
    );
}

#[test]
fn checked_derivation_fails_on_overflow() {
    let mut vs = LVarSource::new();
    let x = vs.fresh();
    let y = vs.fresh();
    let goal = all(vec![
        unify(x, i64::MAX),
        map_1(x, y, NumFn::AddConst(1), NumFn::SubConst(1)),
    ]);
    assert_eq!(goal.query(&vec![x, y], &vs, FUEL), Vec::<Vec<Val>>::new());
}

#[test]
fn string_values_unify_by_contents() {
    let mut vs = LVarSource::new();
    let x = vs.fresh();
    let goal = unify(x, str_val("hello".to_string()));
    assert_eq!(
        goal.query(&vec![x], &vs, FUEL),
        vec![vec![str_val("hello".to_string())]]
    );
    let clash = both(
        unify(x, str_val("hello".to_string())),
        unify(x, str_val("world".to_string())),
    );
    assert_eq!(clash.query(&vec![x], &vs, FUEL), Vec::<Vec<Val>>::new());
}

#[test]
fn mismatched_kinds_fail() {
    let mut vs = LVarSource::new();
    let x = vs.fresh();
    let goal = both(unify(x, 1), unify(x, str_val("1".to_string())));
    assert_eq!(goal.query(&vec![x], &vs, FUEL), Vec::<Vec<Val>>::new());
}

#[test]
fn cycle_is_reported_by_resolution() {
    // Without an occurs check a variable can be bound to a value
    // containing itself; deep resolution then reports the cycle.
    let mut vs = LVarSource::new();
    let x = vs.fresh();
    let state = State::new()
        .unify(Val::Var(x), pair_val(Val::Var(x), Val::Nil))
        .unwrap();
    assert_eq!(
        state.resolve_var(x),
        Err(UnifyError::InfiniteRecursion(x))
    );
}

#[test]
fn cyclic_answers_are_suppressed() {
    let mut vs = LVarSource::new();
    let x = vs.fresh();
    let goal = unify(x, pair_val(Val::Var(x), Val::Nil));
    assert_eq!(goal.query(&vec![x], &vs, FUEL), Vec::<Vec<Val>>::new());
}

#[test]
fn unbound_answers_are_suppressed() {
    // A state whose asked variable is not ground contributes no row.
    let mut vs = LVarSource::new();
    let x = vs.fresh();
    let y = vs.fresh();
    let goal = either(unify(x, 1), unify(x, y));
    assert_eq!(goal.query(&vec![x], &vs, FUEL), vec![vec![Val::Int(1)]]);
}

#[test]
fn fresh_vars_are_distinct() {
    let mut vs = LVarSource::new();
    let a = vs.fresh();
    let b = vs.fresh();
    let c = vs.fresh();
    assert!(a != b && b != c && a != c);
    assert_eq!(vs.peek(), 3);
}

#[test]
fn resolved_splits_vars_from_values() {
    let mut vs = LVarSource::new();
    let x = vs.fresh();
    assert_eq!(Val::Var(x).resolved(), Err(x));
    assert_eq!(Val::Int(3).resolved(), Ok(&Val::Int(3)));
}

#[test]
fn one_step_resolution_returns_next_hop() {
    let mut vs = LVarSource::new();
    let x = vs.fresh();
    let y = vs.fresh();
    let state = State::new().assign(x, Val::Var(y)).assign(y, Val::Int(5));
    let xv = Val::Var(x);
    assert_eq!(state.resolve_val(&xv), &Val::Var(y));
    assert_eq!(state.get(x), Err(y));
    assert_eq!(state.get(y), Ok(&Val::Int(5)));
}

#[test]
fn member_attempt_waits_on_unresolved_collection() {
    let mut vs = LVarSource::new();
    let x = vs.fresh();
    let c = vs.fresh();
    let proj = Projection::Member(Member {
        item: x.into_val(),
        collection: c.into_val(),
    });
    match proj.attempt(State::new_at(vs.peek())) {
        Watch::Waiting(_, _) => {}
        Watch::Done(_) => panic!("expected the projection to wait"),
    }
}

#[test]
fn mapping_evaluates_both_directions() {
    let mut vs = LVarSource::new();
    let x = vs.fresh();
    let y = vs.fresh();
    let m = canrun::Mapping {
        a: x.into_val(),
        b: y.into_val(),
        a_to_b: NumFn::AddConst(1),
        b_to_a: NumFn::SubConst(1),
    };
    assert_eq!(m.evaluate_a(1), Some(2));
    assert_eq!(m.evaluate_b(2), Some(1));
    assert_eq!(m.evaluate_a(i64::MAX), None);
    let state = State::new_at(vs.peek()).unify(Val::Var(x), Val::Int(1)).unwrap();
    let run = m.run(state).unwrap();
    assert_eq!(run.resolve_var(y).unwrap(), Val::Int(2));
}

#[test]
fn append_finds_all_splits() {
    // append(x, y, [1, 2]) enumerates every split of the list.
    let mut vs = LVarSource::new();
    let x = vs.fresh();
    let y = vs.fresh();
    let list = pair_val(Val::Int(1), pair_val(Val::Int(2), Val::Nil));
    let goal = canrun::append(x, y, list.clone());
    let rows = goal.query(&vec![x, y], &vs, FUEL);
    assert_eq!(rows.len(), 3);
    assert_eq!(rows[0], vec![Val::Nil, list.clone()]);
    assert_eq!(
        rows[1],
        vec![
            pair_val(Val::Int(1), Val::Nil),
            pair_val(Val::Int(2), Val::Nil)
        ]
    );
    assert_eq!(rows[2], vec![list, Val::Nil]);
}

#[test]
fn fork_queue_is_fifo() {
    // Two disjunctions queued in order expand oldest first, so answers
    // come in lexicographic branch order.
    let mut vs = LVarSource::new();
    let x = vs.fresh();
    let y = vs.fresh();
    let goal = both(
        either(unify(x, 1), unify(x, 2)),
        either(unify(y, 3), unify(y, 4)),
    );
    assert_eq!(
        goal.query(&vec![x, y], &vs, FUEL),
        vec![
            vec![Val::Int(1), Val::Int(3)],
            vec![Val::Int(1), Val::Int(4)],
            vec![Val::Int(2), Val::Int(3)],
            vec![Val::Int(2), Val::Int(4)],
        ]
    );
}

#[test]
fn fork_and_drain_directly() {
    let mut vs = LVarSource::new();
    let x = vs.fresh();
    let state = State::new_at(vs.peek());
    let forked = state
        .fork(Fork::Goals(Rc::new(vec![unify(x, 1), unify(x, 2)])))
        .unwrap();
    let states = forked.drain(FUEL);
    assert_eq!(states.len(), 2);
    assert_eq!(states[0].resolve_var(x).unwrap(), Val::Int(1));
    assert_eq!(states[1].resolve_var(x).unwrap(), Val::Int(2));
}

#[test]
fn watch_files_and_wakes() {
    let mut vs = LVarSource::new();
    let x = vs.fresh();
    let y = vs.fresh();
    let state = State::new_at(vs.peek());
    let proj = Projection::Map1(Mapping {
        a: x.into_val(),
        b: y.into_val(),
        a_to_b: NumFn::AddConst(10),
        b_to_a: NumFn::SubConst(10),
    });
    // Neither side is resolved: the projection is filed, the bindings
    // stay untouched.
    let waiting = state.watch(proj).unwrap();
    assert_eq!(waiting.resolve_var(x).unwrap(), Val::Var(x));
    // Binding one side wakes it and derives the other.
    let woken = waiting.unify(Val::Var(x), Val::Int(1)).unwrap();
    assert_eq!(woken.resolve_var(y).unwrap(), Val::Int(11));
}

#[test]
fn member_of_empty_collection() {
    let mut vs = LVarSource::new();
    let x = vs.fresh();
    let goal = member(x, ints(&[]));
    assert_eq!(goal.query(&vec![x], &vs, FUEL), Vec::<Vec<Val>>::new());
}

#[test]
fn empty_sequences_unify() {
    let vs = LVarSource::new();
    let goal = unify(ints(&[]), ints(&[]));
    assert_eq!(goal.query(&vec![], &vs, FUEL).len(), 1);
}

#[test]
fn empty_conjunction_succeeds_once() {
    let vs = LVarSource::new();
    let goal = all(vec![]);
    assert_eq!(goal.query(&vec![], &vs, FUEL).len(), 1);
}

#[test]
fn empty_disjunction_yields_nothing() {
    let vs = LVarSource::new();
    let goal = any(vec![]);
    assert_eq!(goal.query(&vec![], &vs, FUEL).len(), 0);
}
