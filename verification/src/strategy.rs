//! The action alphabet and the capability set every decision strategy offers.

use vstd::prelude::*;

verus! {

/// One agent's committed choice in a single pairing: stay silent or testify.
#[derive(Clone, Copy, Debug, PartialEq, Eq, Structural)]
pub enum Action {
    Cooperate,
    Defect,
}

/// A polymorphic decision unit with per-opponent memory.
///
/// `act` commits to an action for the current pairing before the opponent's
/// current-round choice is known; `feedback` afterwards tells the strategy
/// what the named opponent did, so it can update memory keyed by that
/// opponent's identity; `identify` is a stable display name with no effect on
/// play.
pub trait Strategy: Sized {
    /// Which actions this strategy, in its current state, may commit to
    /// against the named opponent. Deterministic strategies admit exactly one.
    spec fn may_act(&self, opponent_id: usize, action: Action) -> bool;

    /// How the state after a feedback call relates to the state before it.
    spec fn after_feedback(&self, opponent_id: usize, action: Action, post: Self) -> bool;

    /// The display name, as a sequence of characters.
    spec fn spec_name(&self) -> Seq<char>;

    /// Commit to an action against the named opponent. A pure function of the
    /// current state and `opponent_id`.
    fn act(&self, opponent_id: usize) -> (action: Action)
        ensures
            self.may_act(opponent_id, action),
    ;

    /// Learn what the named opponent did in the round just resolved.
    fn feedback(&mut self, opponent_id: usize, action: Action)
        ensures
            old(self).after_feedback(opponent_id, action, *final(self)),
    ;

    /// The stable human-readable name of this strategy.
    fn identify(&self) -> (name: String)
        ensures
            name@ == self.spec_name(),
    ;
}

} // verus!
