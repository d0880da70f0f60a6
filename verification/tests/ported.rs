//! The original engine scenarios: membership, sequence unification,
//! conjunction, mapping projections, relational append, and the state
//! primitives.

use canrun::goal::{all, append, either, equal, map_1, member, unify, Goal, NumFn};
use canrun::value::{pair_val, str_val, vec_val, IntoVal, LVar, LVarSource, Val};
use canrun::State;
use itertools::Itertools;

const FUEL: u64 = 100_000;

fn ints(ns: &[i64]) -> Val {
    vec_val(ns.iter().map(|n| Val::Int(*n)).collect())
}

fn run_goals(goals: Vec<Goal>, vars: Vec<LVar>, src: &LVarSource) -> Vec<Vec<Val>> {
    all(goals).query(&vars, src, FUEL)
}

fn assert_permutations_resolve_to(
    goals: Vec<Goal>,
    vars: Vec<LVar>,
    expected: Vec<Vec<Val>>,
    src: &LVarSource,
) {
    let n = goals.len();
    for perm in goals.into_iter().permutations(n) {
        assert_eq!(run_goals(perm, vars.clone(), src), expected);
    }
}

#[test]
fn basic_member() {
    let mut vs = LVarSource::new();
    let x = vs.fresh();
    let goals = vec![member(x, ints(&[1, 2, 3]))];
    assert_permutations_resolve_to(
        goals,
        vec![x],
        vec![vec![Val::Int(1)], vec![Val::Int(2)], vec![Val::Int(3)]],
        &vs,
    );
}

#[test]
fn member_with_conditions() {
    let mut vs = LVarSource::new();
    let x = vs.fresh();
    let goals = vec![unify(x, 2), member(x, ints(&[1, 2, 3]))];
    assert_permutations_resolve_to(goals, vec![x], vec![vec![Val::Int(2)]], &vs);
}

#[test]
fn unify_two_contains_1() {
    let mut vs = LVarSource::new();
    let x = vs.fresh();
    let list = ints(&[1, 2, 3]);
    let goals = vec![member(1, x), member(1, x), unify(x, list.clone())];
    assert_permutations_resolve_to(goals, vec![x], vec![vec![list]], &vs);
}

#[test]
fn unify_two_contains_2() {
    let mut vs = LVarSource::new();
    let x = vs.fresh();
    let list = ints(&[1, 2, 3]);
    let goals = vec![member(1, x), member(2, x), unify(x, list.clone())];
    assert_permutations_resolve_to(goals, vec![x], vec![vec![list]], &vs);
}

#[test]
fn unify_two_contains_3() {
    let mut vs = LVarSource::new();
    let x = vs.fresh();
    let list = ints(&[1, 2, 3]);
    let goals = vec![
        either(member(1, x), member(4, x)),
        member(2, x),
        unify(x, list.clone()),
    ];
    assert_permutations_resolve_to(goals, vec![x], vec![vec![list]], &vs);
}

#[test]
fn unify_two_contains_4() {
    let mut vs = LVarSource::new();
    let x = vs.fresh();
    let list = ints(&[1, 2, 3]);
    let goals = vec![member(1, x), member(4, x), unify(x, list.clone())];
    assert_permutations_resolve_to(goals, vec![x], vec![], &vs);
}

#[test]
fn map_1_succeeds() {
    let mut vs = LVarSource::new();
    let x = vs.fresh();
    let y = vs.fresh();
    let goals = vec![
        unify(1, x),
        unify(2, y),
        map_1(x, y, NumFn::AddConst(1), NumFn::SubConst(1)),
    ];
    assert_permutations_resolve_to(
        goals,
        vec![x, y],
        vec![vec![Val::Int(1), Val::Int(2)]],
        &vs,
    );
}

#[test]
fn vec_succeeds() {
    let mut vs = LVarSource::new();
    let x = vs.fresh();
    let goals = vec![unify(x, ints(&[1, 2])), unify(x, ints(&[1, 2]))];
    assert_permutations_resolve_to(goals, vec![x], vec![vec![ints(&[1, 2])]], &vs);
}

#[test]
fn vec_fails() {
    let mut vs = LVarSource::new();
    let x = vs.fresh();
    let goals = vec![unify(x, ints(&[1, 3])), unify(x, ints(&[1, 2]))];
    assert_permutations_resolve_to(goals, vec![x], vec![], &vs);
}

#[test]
fn nested_var() {
    let mut vs = LVarSource::new();
    let x = vs.fresh();
    let y = vs.fresh();
    let goals = vec![
        unify(x, vec_val(vec![Val::Int(1), y.into_val()])),
        unify(x, ints(&[1, 2])),
    ];
    assert_permutations_resolve_to(goals, vec![y], vec![vec![Val::Int(2)]], &vs);
}

#[test]
fn all_succeeds() {
    let mut vs = LVarSource::new();
    let x = vs.fresh();
    let y = vs.fresh();
    let goal = all(vec![unify(x, 5), unify(y, 7)]);
    let result = goal.query(&vec![x, y], &vs, FUEL);
    assert_eq!(result, vec![vec![Val::Int(5), Val::Int(7)]]);
}

#[test]
fn all_fails() {
    let mut vs = LVarSource::new();
    let x = vs.fresh();
    let goal = all(vec![unify(x, 5), unify(x, 7)]);
    let result = goal.query(&vec![x], &vs, FUEL);
    assert_eq!(result, Vec::<Vec<Val>>::new());
}

#[test]
fn basic_append() {
    let mut vs = LVarSource::new();
    let x = vs.fresh();
    let hi = pair_val(
        str_val("h".to_string()),
        pair_val(str_val("i".to_string()), Val::Nil),
    );
    let h = pair_val(str_val("h".to_string()), Val::Nil);
    let i = pair_val(str_val("i".to_string()), Val::Nil);
    let goal = append(h, x, hi);
    let result = goal.query(&vec![x], &vs, FUEL);
    assert_eq!(result[0][0], i);
}

#[test]
fn basic_equal() {
    let mut vs = LVarSource::new();
    let x = vs.fresh();
    let state = State::new_at(vs.peek());
    let goal = equal(x, 5);
    let result = goal.apply(state).unwrap();
    assert_eq!(result.resolve_var(x).unwrap(), Val::Int(5));
}

fn increment(a: LVar, b: LVar) -> Goal {
    map_1(a, b, NumFn::AddConst(1), NumFn::SubConst(1))
}

#[test]
fn should_succeed_all_defined() {
    let mut vs = LVarSource::new();
    let x = vs.fresh();
    let y = vs.fresh();
    let goals = vec![increment(x, y), unify(x, 1), unify(y, 2)];
    let expected = vec![vec![Val::Int(1), Val::Int(2)]];
    assert_permutations_resolve_to(goals, vec![x, y], expected, &vs);
}

#[test]
fn should_succeed_forward() {
    let mut vs = LVarSource::new();
    let x = vs.fresh();
    let y = vs.fresh();
    let goals = vec![increment(x, y), unify(x, 1)];
    let expected = vec![vec![Val::Int(1), Val::Int(2)]];
    assert_permutations_resolve_to(goals, vec![x, y], expected, &vs);
}

#[test]
fn should_succeed_backward() {
    let mut vs = LVarSource::new();
    let x = vs.fresh();
    let y = vs.fresh();
    let goals = vec![increment(x, y), unify(y, 2)];
    let expected = vec![vec![Val::Int(1), Val::Int(2)]];
    assert_permutations_resolve_to(goals, vec![x, y], expected, &vs);
}

#[test]
fn should_succeed_forward_multiple_steps() {
    let mut vs = LVarSource::new();
    let x = vs.fresh();
    let y = vs.fresh();
    let x2 = vs.fresh();
    let y2 = vs.fresh();
    let goals = vec![
        increment(x, y2),
        unify(x, x2),
        unify(x2, 1),
        unify(y, y2),
    ];
    let expected = vec![vec![Val::Int(1), Val::Int(2)]];
    assert_permutations_resolve_to(goals, vec![x, y], expected, &vs);
}

#[test]
fn should_succeed_backward_multiple_steps() {
    let mut vs = LVarSource::new();
    let x = vs.fresh();
    let y = vs.fresh();
    let x2 = vs.fresh();
    let y2 = vs.fresh();
    let goals = vec![
        increment(x, y2),
        unify(x, x2),
        unify(y2, 2),
        unify(y, y2),
    ];
    let expected = vec![vec![Val::Int(1), Val::Int(2)]];
    assert_permutations_resolve_to(goals, vec![x, y], expected, &vs);
}

#[test]
fn should_fail() {
    let mut vs = LVarSource::new();
    let x = vs.fresh();
    let y = vs.fresh();
    let goals = vec![increment(x, y), unify(x, 1), unify(y, 3)];
    assert_permutations_resolve_to(goals, vec![x, y], vec![], &vs);
}

#[test]
fn should_fail_multiple_steps() {
    let mut vs = LVarSource::new();
    let x = vs.fresh();
    let y = vs.fresh();
    let x2 = vs.fresh();
    let y2 = vs.fresh();
    let goals = vec![
        increment(x, y2),
        unify(x, x2),
        unify(y2, 3),
        unify(x2, 1),
        unify(y, y2),
    ];
    assert_permutations_resolve_to(goals, vec![x, y], vec![], &vs);
}

#[test]
fn new() {
    let mut vs = LVarSource::new();
    let x = vs.fresh();
    let state = State::new();
    assert_eq!(state.resolve_var(x).unwrap(), Val::Var(x));
}

#[test]
fn assign() {
    let mut vs = LVarSource::new();
    let x = vs.fresh();
    let state = State::new();
    let state = state.assign(x, Val::Int(5));
    assert_eq!(state.resolve_var(x).unwrap(), Val::Int(5));
}

#[test]
fn value_of_direct() {
    let mut vs = LVarSource::new();
    let x = vs.fresh();
    let state = State::new();
    let state = state.assign(x, Val::Int(5));
    assert_eq!(state.resolve_var(x).unwrap(), Val::Int(5));
}

#[test]
fn value_of_missing() {
    let mut vs = LVarSource::new();
    let x = vs.fresh();
    let state = State::new();
    assert_eq!(state.resolve_var(x).unwrap(), Val::Var(x));
    assert_eq!(state.resolve(&Val::Int(5)).unwrap(), Val::Int(5));
}

#[test]
fn value_of_nested() {
    let mut vs = LVarSource::new();
    let x = vs.fresh();
    let y = vs.fresh();
    let z = vs.fresh();
    let state = State::new();
    let state = state.assign(x, Val::Var(y));
    let state = state.assign(y, Val::Var(z));
    let state = state.assign(z, Val::Int(5));
    assert_eq!(state.resolve_var(x).unwrap(), Val::Int(5));
    assert_eq!(state.resolve_var(y).unwrap(), Val::Int(5));
    assert_eq!(state.resolve_var(z).unwrap(), Val::Int(5));
}

#[test]
fn unify_with_self() {
    let mut vs = LVarSource::new();
    let x = vs.fresh();
    let state = State::new();
    let unified = state.clone().unify(x.into_val(), x.into_val()).unwrap();
    assert_eq!(unified.resolve_var(x).unwrap(), state.resolve_var(x).unwrap());
}

#[test]
fn unify_two_vars() {
    let mut vs = LVarSource::new();
    let x = vs.fresh();
    let y = vs.fresh();
    let state = State::new();
    let unified = state.clone().unify(Val::Var(x), Val::Var(y)).unwrap();
    let assigned = state.assign(x, Val::Var(y));
    assert_eq!(unified.resolve_var(x).unwrap(), assigned.resolve_var(x).unwrap());
}

#[test]
fn unify_with_value() {
    let mut vs = LVarSource::new();
    let x = vs.fresh();
    let state = State::new();
    let forward = state.clone().unify(Val::Var(x), Val::Int(5)).unwrap();
    assert_eq!(forward.resolve_var(x).unwrap(), Val::Int(5));
    let backward = state.clone().unify(Val::Int(5), Val::Var(x)).unwrap();
    assert_eq!(backward.resolve_var(x).unwrap(), Val::Int(5));
}

#[test]
fn unify_already_bound() {
    let mut vs = LVarSource::new();
    let x = vs.fresh();
    let state = State::new().assign(x, Val::Int(5));
    let result = state.unify(Val::Var(x), Val::Int(6));
    assert!(result.is_none());
}
