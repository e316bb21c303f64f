//! The payoff matrix: an ordered action pair becomes a pair of score deltas.

use vstd::prelude::*;

use crate::strategy::Action;

verus! {

/// The classic dilemma matrix, counted as years served: mutual silence costs
/// each side 1, a lone cooperator facing a testifier takes 3 while the
/// testifier walks with 0, and mutual testimony costs each side 2.
pub open spec fn spec_payoff(a: Action, b: Action) -> (int, int) {
    match (a, b) {
        (Action::Cooperate, Action::Cooperate) => (1, 1),
        (Action::Cooperate, Action::Defect) => (3, 0),
        (Action::Defect, Action::Cooperate) => (0, 3),
        (Action::Defect, Action::Defect) => (2, 2),
    }
}

/// Resolve an ordered action pair to the two agents' score deltas.
pub fn resolve_payoff(a: Action, b: Action) -> (deltas: (i32, i32))
    ensures
        deltas.0 as int == spec_payoff(a, b).0,
        deltas.1 as int == spec_payoff(a, b).1,
{
    match (a, b) {
        (Action::Cooperate, Action::Cooperate) => (1, 1),
        (Action::Cooperate, Action::Defect) => (3, 0),
        (Action::Defect, Action::Cooperate) => (0, 3),
        (Action::Defect, Action::Defect) => (2, 2),
    }
}

/// Payoff symmetry: swapping the two actions swaps the two deltas, so a
/// mixed pairing costs the same no matter which seat each player takes.
pub proof fn lemma_payoff_symmetry(a: Action, b: Action)
    ensures
        spec_payoff(a, b).0 == spec_payoff(b, a).1,
        spec_payoff(a, b).1 == spec_payoff(b, a).0,
{
}

/// Every delta the matrix hands out lies between 0 and 3.
pub proof fn lemma_payoff_bounds(a: Action, b: Action)
    ensures
        0 <= spec_payoff(a, b).0 <= 3,
        0 <= spec_payoff(a, b).1 <= 3,
{
}

} // verus!
