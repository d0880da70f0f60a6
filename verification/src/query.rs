//! The query pipeline: drive the search and materialize ground
//! answers.
//!
//! A query applies a goal to a fresh state, drains the resulting
//! states, and for each terminal state recursively resolves the asked
//! variables.  A state in which some asked variable is not ground (or
//! whose substitution has a reachable cycle) contributes no row;
//! duplicate rows are preserved, and rows come in search order.

use crate::engine::{apply_fuel, drain_fuel, sp_apply, sp_drain, states_view};
use crate::goal::Goal;
use crate::state::{
    chase_budget, empty_state_v, lemma_like_ground, lemma_resolve_deterministic,
    lemma_resolve_exclusive, sp_resolves, State, StateV,
};
use crate::value::{is_ground, is_ground_val, LVar, LVarSource, Val};
use vstd::prelude::*;

verus! {

/// Whether the variable has a ground deep resolution under the
/// substitution.
pub open spec fn answerable(m: Map<u64, Val>, x: LVar) -> bool {
    exists|out: Val| sp_resolves(m, Val::Var(x), out, chase_budget(m)) && is_ground(out)
}

/// Whether every asked variable has a ground resolution in this state.
pub open spec fn can_answer(sv: StateV, vars: Seq<LVar>) -> bool {
    forall|j: int| 0 <= j < vars.len() ==> answerable(sv.values, #[trigger] vars[j])
}

/// Whether `row` is the tuple of ground resolutions of `vars` in this
/// state.
pub open spec fn row_matches(sv: StateV, vars: Seq<LVar>, row: Seq<Val>) -> bool {
    &&& row.len() == vars.len()
    &&& forall|j: int|
        0 <= j < vars.len() ==> sp_resolves(
            sv.values,
            Val::Var(vars[j]),
            #[trigger] row[j],
            chase_budget(sv.values),
        ) && is_ground(row[j])
}

/// Whether `rows` is exactly the sequence of ground answers of the
/// given states, in order: a state whose variables all resolve to
/// ground values contributes its row, any other state is suppressed.
pub open spec fn is_query_result(states: Seq<StateV>, vars: Seq<LVar>, rows: Seq<Seq<Val>>) -> bool
    decreases states.len(),
{
    if states.len() == 0 {
        rows.len() == 0
    } else if can_answer(states.last(), vars) {
        &&& rows.len() > 0
        &&& row_matches(states.last(), vars, rows.last())
        &&& is_query_result(states.drop_last(), vars, rows.drop_last())
    } else {
        is_query_result(states.drop_last(), vars, rows)
    }
}

/// The states the search reaches for a goal: apply it to a fresh state
/// whose internal variables start at `base`, then drain.
pub open spec fn sp_query_states(g: Goal, base: u64, fuel: nat) -> Seq<StateV> {
    match sp_apply(g, empty_state_v(base), fuel) {
        None => Seq::empty(),
        Some(s) => sp_drain(s, fuel),
    }
}

/// The rows of a result, as sequences.
pub open spec fn rows_view(r: Seq<Vec<Val>>) -> Seq<Seq<Val>> {
    Seq::new(r.len(), |i: int| r[i]@)
}

/// Resolve every asked variable in one state; `None` when some
/// variable has no ground resolution there.
#[verifier::loop_isolation(false)]
fn try_row(st: &State, vars: &Vec<LVar>) -> (r: Option<Vec<Val>>)
    ensures
        match r {
            Some(row) => row_matches(st@, vars@, row@),
            None => !can_answer(st@, vars@),
        },
{
    let ghost m = st@.values;
    let ghost budget = chase_budget(m);
    let mut row: Vec<Val> = Vec::new();
    let mut j: usize = 0;
    while j < vars.len()
        invariant
            j <= vars.len(),
            row@.len() == j as nat,
            forall|k: int|
                0 <= k < j as int ==> sp_resolves(
                    m,
                    Val::Var(vars@[k]),
                    #[trigger] row@[k],
                    budget,
                ) && is_ground(row@[k]),
        decreases vars.len() - j,
    {
        match st.resolve_var(vars[j]) {
            Ok(out) => {
                if is_ground_val(&out) {
                    row.push(out);
                } else {
                    proof {
                        assert forall|cand: Val| !(sp_resolves(
                            m,
                            Val::Var(vars@[j as int]),
                            cand,
                            budget,
                        ) && is_ground(cand)) by {
                            if sp_resolves(m, Val::Var(vars@[j as int]), cand, budget) {
                                lemma_resolve_deterministic(
                                    m,
                                    Val::Var(vars@[j as int]),
                                    out,
                                    cand,
                                    budget,
                                );
                                lemma_like_ground(out, cand);
                            }
                        }
                        assert(!answerable(m, vars@[j as int]));
                    }
                    return None;
                }
            },
            Err(_) => {
                proof {
                    assert forall|cand: Val| !(sp_resolves(
                        m,
                        Val::Var(vars@[j as int]),
                        cand,
                        budget,
                    ) && is_ground(cand)) by {
                        if sp_resolves(m, Val::Var(vars@[j as int]), cand, budget) {
                            lemma_resolve_exclusive(m, Val::Var(vars@[j as int]), cand, budget);
                        }
                    }
                    assert(!answerable(m, vars@[j as int]));
                }
                return None;
            },
        }
        j = j + 1;
    }
    Some(row)
}

impl Goal {
    /// Run the search for this goal and collect, for each reached
    /// state in search order, the tuple of ground values the asked
    /// variables resolve to; states where some asked variable stays
    /// unresolved are suppressed.  Internal variables are drawn above
    /// the source's watermark, and `fuel` bounds the whole search.
    pub fn query(self, vars: &Vec<LVar>, src: &LVarSource, fuel: u64) -> (r: Vec<Vec<Val>>)
        ensures
            is_query_result(
                sp_query_states(self, src.next_id(), fuel as nat),
                vars@,
                rows_view(r@),
            ),
    {
        let ghost g = self;
        let ghost base = src.next_id();
        let state = State::new_at(src.peek());
        let mut rows: Vec<Vec<Val>> = Vec::new();
        match apply_fuel(self, state, fuel) {
            None => {
                proof {
                    assert(sp_query_states(g, base, fuel as nat) =~= Seq::<StateV>::empty());
                    assert(rows_view(rows@) =~= Seq::<Seq<Val>>::empty());
                }
                rows
            },
            Some(s1) => {
                let states = drain_fuel(s1, fuel);
                let ghost stv = states_view(states@);
                proof {
                    assert(stv == sp_query_states(g, base, fuel as nat));
                    assert(stv.take(0) =~= Seq::<StateV>::empty());
                    assert(rows_view(rows@) =~= Seq::<Seq<Val>>::empty());
                }
                let mut i: usize = 0;
                while i < states.len()
                    invariant
                        i <= states.len(),
                        states_view(states@) == stv,
                        is_query_result(stv.take(i as int), vars@, rows_view(rows@)),
                    decreases states.len() - i,
                {
                    let ghost rowspre = rows_view(rows@);
                    proof {
                        assert(stv[i as int] == states@[i as int]@);
                        assert(stv.take(i as int + 1).drop_last() =~= stv.take(i as int));
                        assert(stv.take(i as int + 1).last() == stv[i as int]);
                    }
                    match try_row(&states[i], vars) {
                        Some(row) => {
                            let ghost rowv = row@;
                            rows.push(row);
                            proof {
                                assert forall|k: int|
                                    0 <= k < vars@.len() implies answerable(
                                    stv[i as int].values,
                                    #[trigger] vars@[k],
                                ) by {
                                    assert(sp_resolves(
                                        stv[i as int].values,
                                        Val::Var(vars@[k]),
                                        rowv[k],
                                        chase_budget(stv[i as int].values),
                                    ) && is_ground(rowv[k]));
                                }
                                assert(can_answer(stv[i as int], vars@));
                                assert(rows_view(rows@).drop_last() =~= rowspre);
                                assert(rows_view(rows@).last() == rowv);
                            }
                        },
                        None => {
                            proof {
                                assert(rows_view(rows@) == rowspre);
                            }
                        },
                    }
                    i = i + 1;
                }
                proof {
                    assert(stv.take(states@.len() as int) =~= stv);
                }
                rows
            },
        }
    }
}

} // verus!
