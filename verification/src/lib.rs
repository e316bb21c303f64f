//! An iterated two-player social-dilemma tournament.
//!
//! A fixed population of agents plays pairwise rounds across epochs. Each
//! agent commits to an action through a pluggable decision strategy, the
//! payoff matrix turns the two actions into score deltas, and every strategy
//! is then told what its opponent did so it can adapt its future play.

pub mod contestants;
pub mod payoff;
pub mod strategy;
pub mod world;
