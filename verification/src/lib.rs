//! A relational (logic) programming engine in the miniKanren tradition.
//!
//! Programs describe relationships between unknowns by composing goals;
//! the engine enumerates the assignments of unknowns consistent with
//! those relationships.  The crate verifies the constraint-solving core:
//! logic values and substitutions, unification, the goal algebra with its
//! disjunctive search, the watch index that suspends constraints on
//! unresolved variables, and the query pipeline that extracts ground
//! answers.

pub mod engine;
pub mod goal;
pub mod laws;
pub mod query;
pub mod state;
pub mod store;
pub mod value;

pub use goal::{
    all, any, append, assert_1, assert_2, both, either, equal, lazy, map_1, map_2, member,
    project_1, project_2, unify, Fork, Goal, GoalFn1, GoalFn2, Mapping, Mapping2, Member, NumFn,
    NumFn2, Pred1, Pred2, Projection, Thunk,
};
pub use engine::{Watch, ENGINE_FUEL};
pub use state::{State, UnifyError};
pub use value::{IntoVal, LVar, LVarSource, Val};
