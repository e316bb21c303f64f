//! The agents, the world and the round engine.
//!
//! Each epoch, the engine enumerates every unordered pair of agents in
//! ascending order, has both sides commit to an action before either learns
//! anything, resolves the payoff, updates both scores, and delivers feedback
//! to both strategies. The whole epoch is specified by a fold,
//! [`agents_after`], over the list of resolved pairings.

use vstd::prelude::*;

use crate::contestants::{model_feedback, model_may_act, model_name, Contestant, StrategyModel};
use crate::payoff::{lemma_payoff_bounds, resolve_payoff, spec_payoff};
use crate::strategy::{Action, Strategy};

verus! {

/// One resolved interaction within an epoch: the two agents' indices and the
/// actions they committed to, in that order.
pub type Pairing = (usize, usize, Action, Action);

/// The specification-level state of an agent: identity, cumulative score
/// (unbounded, as a mathematical integer) and strategy state.
#[verifier::ext_equal]
pub struct AgentModel {
    pub id: usize,
    pub score: int,
    pub strategy: StrategyModel,
}

/// An identity, a running score, and the strategy that plays for it.
pub struct Agent {
    pub id: usize,
    pub score: i32,
    pub strategy: Contestant,
}

impl View for Agent {
    type V = AgentModel;

    open spec fn view(&self) -> AgentModel {
        AgentModel { id: self.id, score: self.score as int, strategy: self.strategy.model() }
    }
}

impl Agent {
    /// A fresh agent: the given identity, the given strategy, score zero.
    pub fn new(id: usize, strategy: Contestant) -> (agent: Agent)
        ensures
            agent@ == (AgentModel { id, score: 0, strategy: strategy.model() }),
    {
        Agent { id, score: 0, strategy }
    }

    /// Commit to an action against the named opponent; delegates to the
    /// strategy and leaves the agent unchanged.
    pub fn act(&self, opponent_id: usize) -> (action: Action)
        ensures
            model_may_act(self@.strategy, opponent_id, action),
    {
        self.strategy.act(opponent_id)
    }

    /// Tell the strategy what the named opponent did; identity and score
    /// stay as they were.
    pub fn feedback(&mut self, opponent_id: usize, action: Action)
        ensures
            final(self)@ == (AgentModel {
                strategy: model_feedback(old(self)@.strategy, opponent_id, action),
                ..old(self)@
            }),
    {
        self.strategy.feedback(opponent_id, action)
    }

    /// The display name of the agent's strategy.
    pub fn strategy_name(&self) -> (name: String)
        ensures
            name@ == model_name(self@.strategy),
    {
        self.strategy.identify()
    }
}

/// A pairing is addressed to two distinct agents of a population of `n`,
/// lower index first.
pub open spec fn valid_pairing(n: int, p: Pairing) -> bool {
    p.0 < p.1 && (p.1 as int) < n
}

/// The population after one pairing is resolved: both scores grow by the
/// matrix deltas, and each strategy learns the opponent's action, keyed by
/// the opponent's identity.
pub open spec fn pairing_applied(agents: Seq<AgentModel>, p: Pairing) -> Seq<AgentModel> {
    let i = p.0 as int;
    let j = p.1 as int;
    let deltas = spec_payoff(p.2, p.3);
    let fed_i = AgentModel {
        score: agents[i].score + deltas.0,
        strategy: model_feedback(agents[i].strategy, p.1, p.3),
        ..agents[i]
    };
    let fed_j = AgentModel {
        score: agents[j].score + deltas.1,
        strategy: model_feedback(agents[j].strategy, p.0, p.2),
        ..agents[j]
    };
    agents.update(i, fed_i).update(j, fed_j)
}

/// The population after a list of pairings is resolved in order.
pub open spec fn agents_after(agents: Seq<AgentModel>, pairings: Seq<Pairing>) -> Seq<AgentModel>
    decreases pairings.len(),
{
    if pairings.len() == 0 {
        agents
    } else {
        agents_after(pairing_applied(agents, pairings[0]), pairings.drop_first())
    }
}

/// Resolving one more pairing after a list is the same as appending it to
/// the list.
pub proof fn lemma_agents_after_snoc(agents: Seq<AgentModel>, ps: Seq<Pairing>, p: Pairing)
    ensures
        agents_after(agents, ps.push(p)) == pairing_applied(agents_after(agents, ps), p),
    decreases ps.len(),
{
    if ps.len() == 0 {
        assert(ps.push(p)[0] == p);
        assert(ps.push(p).drop_first() =~= Seq::<Pairing>::empty());
        assert(agents_after(pairing_applied(agents, p), Seq::<Pairing>::empty())
            == pairing_applied(agents, p));
        assert(agents_after(agents, ps) == agents);
    } else {
        assert(ps.push(p)[0] == ps[0]);
        assert(ps.push(p).drop_first() =~= ps.drop_first().push(p));
        lemma_agents_after_snoc(pairing_applied(agents, ps[0]), ps.drop_first(), p);
    }
}

/// Across any list of pairings the population keeps its size and
/// identities, and every score is non-decreasing and grows by at most 3 per
/// pairing.
pub proof fn lemma_agents_after_frame(agents: Seq<AgentModel>, ps: Seq<Pairing>)
    requires
        forall|k: int| 0 <= k < ps.len() ==> valid_pairing(agents.len() as int, #[trigger] ps[k]),
    ensures
        agents_after(agents, ps).len() == agents.len(),
        forall|i: int|
            0 <= i < agents.len() ==> (#[trigger] agents_after(agents, ps)[i]).id == agents[i].id,
        forall|i: int|
            0 <= i < agents.len() ==> agents[i].score <= (#[trigger] agents_after(agents, ps)[i]).score
                <= agents[i].score + 3 * ps.len(),
    decreases ps.len(),
{
    if ps.len() > 0 {
        let mid = pairing_applied(agents, ps[0]);
        lemma_payoff_bounds(ps[0].2, ps[0].3);
        assert(forall|k: int|
            0 <= k < ps.drop_first().len() ==> valid_pairing(mid.len() as int, #[trigger] ps.drop_first()[k]));
        lemma_agents_after_frame(mid, ps.drop_first());
    }
}

/// The row of pairs `(i, j), (i, j + 1), ..., (i, n - 1)`.
pub open spec fn row_pairs(i: int, j: int, n: int) -> Seq<(usize, usize)>
    decreases n - j,
{
    if 0 <= i < j < n {
        seq![(i as usize, j as usize)] + row_pairs(i, j + 1, n)
    } else {
        Seq::empty()
    }
}

/// The rows of pairs whose first index is `i, i + 1, ..., n - 1`.
pub open spec fn pairs_from(i: int, n: int) -> Seq<(usize, usize)>
    decreases n - i,
{
    if 0 <= i < n {
        row_pairs(i, i + 1, n) + pairs_from(i + 1, n)
    } else {
        Seq::empty()
    }
}

/// Every unordered pair over `0 .. n`, exactly once, in the engine's order:
/// ascending first index, then ascending second index.
pub open spec fn all_pairs(n: int) -> Seq<(usize, usize)> {
    pairs_from(0, n)
}

/// How many unordered pairs a population of `n` has.
pub open spec fn num_pairs(n: int) -> int {
    n * (n - 1) / 2
}

/// The indices a list of pairings addresses, in order.
pub open spec fn pairs_of(ps: Seq<Pairing>) -> Seq<(usize, usize)> {
    ps.map_values(|p: Pairing| (p.0, p.1))
}

proof fn lemma_row_pairs_len(i: int, j: int, n: int)
    requires
        0 <= i < j,
    ensures
        row_pairs(i, j, n).len() == if j < n {
            n - j
        } else {
            0
        },
    decreases n - j,
{
    if j < n {
        lemma_row_pairs_len(i, j + 1, n);
    }
}

proof fn lemma_pairs_from_len(i: int, n: int)
    requires
        0 <= i,
    ensures
        pairs_from(i, n).len() == if i < n {
            num_pairs(n - i)
        } else {
            0
        },
    decreases n - i,
{
    if i < n {
        lemma_row_pairs_len(i, i + 1, n);
        lemma_pairs_from_len(i + 1, n);
        assert((n - i - 1) + (n - i - 1) * (n - i - 2) / 2 == (n - i) * (n - i - 1) / 2)
            by (nonlinear_arith);
    }
}

/// The engine's enumeration visits exactly `n * (n - 1) / 2` pairs.
pub proof fn lemma_all_pairs_len(n: int)
    requires
        0 <= n,
    ensures
        all_pairs(n).len() == num_pairs(n),
{
    lemma_pairs_from_len(0, n);
    if n == 0 {
        assert(num_pairs(0) == 0) by (nonlinear_arith);
    }
}

/// The sum of all cumulative scores in a population.
pub open spec fn total_score(agents: Seq<AgentModel>) -> int
    decreases agents.len(),
{
    if agents.len() == 0 {
        0
    } else {
        agents[0].score + total_score(agents.drop_first())
    }
}

/// The sum over a list of pairings of both sides' score deltas.
pub open spec fn total_delta(ps: Seq<Pairing>) -> int
    decreases ps.len(),
{
    if ps.len() == 0 {
        0
    } else {
        spec_payoff(ps[0].2, ps[0].3).0 + spec_payoff(ps[0].2, ps[0].3).1 + total_delta(
            ps.drop_first(),
        )
    }
}

proof fn lemma_total_score_update(agents: Seq<AgentModel>, i: int, a: AgentModel)
    requires
        0 <= i < agents.len(),
    ensures
        total_score(agents.update(i, a)) == total_score(agents) + a.score - agents[i].score,
    decreases agents.len(),
{
    let updated = agents.update(i, a);
    if i == 0 {
        assert(updated.drop_first() =~= agents.drop_first());
    } else {
        assert(updated.drop_first() =~= agents.drop_first().update(i - 1, a));
        lemma_total_score_update(agents.drop_first(), i - 1, a);
    }
}

proof fn lemma_total_score_pairing(agents: Seq<AgentModel>, p: Pairing)
    requires
        valid_pairing(agents.len() as int, p),
    ensures
        total_score(pairing_applied(agents, p)) == total_score(agents) + spec_payoff(p.2, p.3).0
            + spec_payoff(p.2, p.3).1,
{
    let i = p.0 as int;
    let j = p.1 as int;
    let deltas = spec_payoff(p.2, p.3);
    let fed_i = AgentModel {
        score: agents[i].score + deltas.0,
        strategy: model_feedback(agents[i].strategy, p.1, p.3),
        ..agents[i]
    };
    let fed_j = AgentModel {
        score: agents[j].score + deltas.1,
        strategy: model_feedback(agents[j].strategy, p.0, p.2),
        ..agents[j]
    };
    lemma_total_score_update(agents, i, fed_i);
    lemma_total_score_update(agents.update(i, fed_i), j, fed_j);
}

/// No score is dropped or double-counted: over any list of pairings, the
/// population's total score grows by exactly the sum of the individual
/// pairing deltas.
pub proof fn lemma_score_conservation(agents: Seq<AgentModel>, ps: Seq<Pairing>)
    requires
        forall|k: int| 0 <= k < ps.len() ==> valid_pairing(agents.len() as int, #[trigger] ps[k]),
    ensures
        total_score(agents_after(agents, ps)) == total_score(agents) + total_delta(ps),
    decreases ps.len(),
{
    if ps.len() > 0 {
        let mid = pairing_applied(agents, ps[0]);
        lemma_total_score_pairing(agents, ps[0]);
        assert(forall|k: int|
            0 <= k < ps.drop_first().len() ==> valid_pairing(mid.len() as int, #[trigger] ps.drop_first()[k]));
        lemma_score_conservation(mid, ps.drop_first());
    }
}

/// How many pairings of a list involve the agent at index `idx`.
pub open spec fn appearances(idx: int, ps: Seq<Pairing>) -> int
    decreases ps.len(),
{
    if ps.len() == 0 {
        0
    } else {
        (if ps[0].0 as int == idx || ps[0].1 as int == idx {
            1int
        } else {
            0int
        }) + appearances(idx, ps.drop_first())
    }
}

proof fn lemma_appearances_nonneg(idx: int, ps: Seq<Pairing>)
    ensures
        0 <= appearances(idx, ps),
    decreases ps.len(),
{
    if ps.len() > 0 {
        lemma_appearances_nonneg(idx, ps.drop_first());
    }
}

proof fn lemma_appearances_snoc(idx: int, ps: Seq<Pairing>, p: Pairing)
    ensures
        appearances(idx, ps.push(p)) == appearances(idx, ps) + (if p.0 as int == idx
            || p.1 as int == idx {
            1int
        } else {
            0int
        }),
    decreases ps.len(),
{
    if ps.len() == 0 {
        assert(ps.push(p)[0] == p);
        assert(ps.push(p).drop_first() =~= Seq::<Pairing>::empty());
        assert(appearances(idx, Seq::<Pairing>::empty()) == 0);
    } else {
        assert(ps.push(p)[0] == ps[0]);
        assert(ps.push(p).drop_first() =~= ps.drop_first().push(p));
        lemma_appearances_snoc(idx, ps.drop_first(), p);
    }
}

/// What a finished epoch's transcript looks like against the population it
/// started from: the pairs are exactly the engine's enumeration, and every
/// recorded action is one its strategy could commit to at the start of the
/// epoch.
pub open spec fn epoch_pairings_ok(pre: Seq<AgentModel>, ps: Seq<Pairing>) -> bool {
    &&& pairs_of(ps) == all_pairs(pre.len() as int)
    &&& forall|k: int| 0 <= k < ps.len() ==> valid_pairing(pre.len() as int, #[trigger] ps[k])
    &&& forall|k: int|
        0 <= k < ps.len() ==> model_may_act(
            pre[(#[trigger] ps[k]).0 as int].strategy,
            ps[k].1,
            ps[k].2,
        ) && model_may_act(pre[ps[k].1 as int].strategy, ps[k].0, ps[k].3)
}

/// A whole run: starting from `pre`, each element of `rounds` is a valid
/// epoch transcript, and folding them all leads to `post`.
pub open spec fn runs_to(
    pre: Seq<AgentModel>,
    rounds: Seq<Seq<Pairing>>,
    post: Seq<AgentModel>,
) -> bool
    decreases rounds.len(),
{
    if rounds.len() == 0 {
        post == pre
    } else {
        epoch_pairings_ok(pre, rounds[0]) && runs_to(
            agents_after(pre, rounds[0]),
            rounds.drop_first(),
            post,
        )
    }
}

proof fn lemma_all_pairs_of_two()
    ensures
        all_pairs(2) =~= seq![(0usize, 1usize)],
{
    reveal_with_fuel(pairs_from, 4);
    reveal_with_fuel(row_pairs, 4);
}

/// One epoch between two unconditional cooperators: the single pairing is
/// `(0, 1)`, both cooperate, and each side's score grows by exactly 1.
proof fn lemma_mutual_cooperation_epoch(pre: Seq<AgentModel>, ps: Seq<Pairing>)
    requires
        pre.len() == 2,
        pre[0].strategy == StrategyModel::AlwaysCooperate,
        pre[1].strategy == StrategyModel::AlwaysCooperate,
        epoch_pairings_ok(pre, ps),
    ensures
        agents_after(pre, ps) =~= seq![
            AgentModel { score: pre[0].score + 1, ..pre[0] },
            AgentModel { score: pre[1].score + 1, ..pre[1] },
        ],
{
    lemma_all_pairs_of_two();
    assert(pairs_of(ps).len() == 1);
    assert(ps.len() == 1);
    assert(pairs_of(ps)[0] == (ps[0].0, ps[0].1));
    assert(ps[0].0 == 0 && ps[0].1 == 1);
    assert(ps[0].2 == Action::Cooperate && ps[0].3 == Action::Cooperate);
    let mid = pairing_applied(pre, ps[0]);
    assert(ps.drop_first() =~= Seq::<Pairing>::empty());
    assert(agents_after(pre, ps) == agents_after(mid, ps.drop_first()));
}

/// A population of exactly two unconditional cooperators gains one point
/// each per epoch: after any run of `N` epochs, each agent's score is its
/// starting score plus `N`, and both strategies are unchanged.
pub proof fn lemma_mutual_cooperation_run(
    pre: Seq<AgentModel>,
    rounds: Seq<Seq<Pairing>>,
    post: Seq<AgentModel>,
)
    requires
        pre.len() == 2,
        pre[0].strategy == StrategyModel::AlwaysCooperate,
        pre[1].strategy == StrategyModel::AlwaysCooperate,
        runs_to(pre, rounds, post),
    ensures
        post.len() == 2,
        post[0].score == pre[0].score + rounds.len(),
        post[1].score == pre[1].score + rounds.len(),
        post[0].strategy == StrategyModel::AlwaysCooperate,
        post[1].strategy == StrategyModel::AlwaysCooperate,
        post[0].id == pre[0].id,
        post[1].id == pre[1].id,
    decreases rounds.len(),
{
    if rounds.len() > 0 {
        lemma_mutual_cooperation_epoch(pre, rounds[0]);
        lemma_mutual_cooperation_run(agents_after(pre, rounds[0]), rounds.drop_first(), post);
    }
}

/// A misconfigured population, rejected when the world is built.
#[derive(Clone, Copy, Debug, PartialEq, Eq, Structural)]
pub enum ConfigError {
    /// Fewer than two agents: no pair can ever be formed.
    TooFewAgents,
    /// An agent's identity does not equal its position, so identities would
    /// not be unique and stable over the run.
    BadIdentity,
}

impl ConfigError {
    /// A human-readable description of the rejection.
    pub fn describe(&self) -> (text: String)
        ensures
            self is TooFewAgents ==> text@ == "population needs at least two agents"@,
            self is BadIdentity ==> text@ == "agent identities must equal their positions"@,
    {
        match self {
            ConfigError::TooFewAgents => "population needs at least two agents".to_string(),
            ConfigError::BadIdentity => "agent identities must equal their positions".to_string(),
        }
    }
}

/// A population is well-formed when it has at least two agents and each
/// agent's identity equals its position in the population.
pub open spec fn valid_population(agents: Seq<AgentModel>) -> bool {
    &&& agents.len() >= 2
    &&& forall|i: int| 0 <= i < agents.len() ==> (#[trigger] agents[i]).id as int == i
}

/// The specification-level population a vector of agents stands for.
pub open spec fn population_view(agents: Seq<Agent>) -> Seq<AgentModel> {
    agents.map_values(|a: Agent| a@)
}

/// An ordered, fixed-size collection of agents; no agent is added or
/// removed after construction.
pub struct World {
    pub agents: Vec<Agent>,
}

impl View for World {
    type V = Seq<AgentModel>;

    open spec fn view(&self) -> Seq<AgentModel> {
        population_view(self.agents@)
    }
}

impl World {
    /// The world's construction-time invariant.
    pub open spec fn wf(&self) -> bool {
        valid_population(self@)
    }

    /// Build a world from a population, rejecting fatal misconfiguration:
    /// success exactly when the population is well-formed, with the error
    /// naming which condition failed.
    pub fn new(agents: Vec<Agent>) -> (result: Result<World, ConfigError>)
        ensures
            match result {
                Ok(world) => world.agents@ == agents@ && world.wf(),
                Err(err) => {
                    &&& !valid_population(population_view(agents@))
                    &&& (err is TooFewAgents <==> agents@.len() < 2)
                },
            },
    {
        if agents.len() < 2 {
            return Err(ConfigError::TooFewAgents);
        }
        let n = agents.len();
        for k in 0..n
            invariant
                n == agents@.len(),
                2 <= agents@.len(),
                forall|i: int| 0 <= i < k ==> (#[trigger] agents@[i])@.id as int == i,
        {
            if agents[k].id != k {
                proof {
                    assert(population_view(agents@)[k as int].id != k);
                }
                return Err(ConfigError::BadIdentity);
            }
        }
        proof {
            let mapped = population_view(agents@);
            assert forall|i: int| 0 <= i < mapped.len() implies (#[trigger] mapped[i]).id as int
                == i by {
                assert(mapped[i] == agents@[i]@);
            }
        }
        Ok(World { agents })
    }

    /// Resolve a list of pairings: print nothing, but add both deltas and
    /// deliver both feedbacks, pairing by pairing, exactly as the fold
    /// [`agents_after`] says.
    pub fn update_scores(&mut self, actions: &Vec<Pairing>)
        requires
            forall|k: int|
                0 <= k < actions@.len() ==> valid_pairing(old(self)@.len() as int, #[trigger] actions@[k]),
            forall|i: int|
                0 <= i < old(self)@.len() ==> (#[trigger] old(self)@[i]).score + 3 * appearances(
                    i,
                    actions@,
                ) <= i32::MAX,
        ensures
            final(self)@ == agents_after(old(self)@, actions@),
    {
        let ghost orig: Seq<AgentModel> = self@;
        let total = actions.len();
        proof {
            assert(actions@.skip(0) =~= actions@);
        }
        for k in 0..total
            invariant
                total == actions@.len(),
                forall|m: int|
                    0 <= m < actions@.len() ==> valid_pairing(orig.len() as int, #[trigger] actions@[m]),
                self@ =~= agents_after(orig, actions@.take(k as int)),
                self@.len() == orig.len(),
                forall|i: int|
                    0 <= i < self@.len() ==> (#[trigger] self@[i]).score + 3 * appearances(
                        i,
                        actions@.skip(k as int),
                    ) <= i32::MAX,
        {
            let ghost pre: Seq<AgentModel> = self@;
            let ghost rest: Seq<Pairing> = actions@.skip(k as int + 1);
            let pairing = actions[k];
            let (id1, id2, action1, action2) = pairing;
            proof {
                lemma_payoff_bounds(action1, action2);
                assert(valid_pairing(orig.len() as int, pairing));
                assert(pre[id1 as int] == self.agents@[id1 as int]@);
                assert(pre[id2 as int] == self.agents@[id2 as int]@);
                // one step of the appearance count: the head of the
                // remaining list is this very pairing
                assert(actions@.skip(k as int)[0] == pairing);
                assert(actions@.skip(k as int).drop_first() =~= rest);
                assert forall|i: int| 0 <= i < pre.len() implies appearances(
                    i,
                    actions@.skip(k as int),
                ) == (if id1 as int == i || id2 as int == i {
                    1int
                } else {
                    0int
                }) + appearances(i, rest) by {
                    lemma_appearances_nonneg(i, rest);
                }
                lemma_appearances_nonneg(id1 as int, rest);
                lemma_appearances_nonneg(id2 as int, rest);
                assert(pre[id1 as int].score + 3 <= i32::MAX);
                assert(pre[id2 as int].score + 3 <= i32::MAX);
            }
            let deltas = resolve_payoff(action1, action2);
            let score1 = self.agents[id1].score;
            let score2 = self.agents[id2].score;
            self.agents[id1].score = score1 + deltas.0;
            self.agents[id2].score = score2 + deltas.1;
            self.agents[id1].feedback(id2, action2);
            self.agents[id2].feedback(id1, action1);
            proof {
                assert(self@ =~= pairing_applied(pre, pairing));
                lemma_agents_after_snoc(orig, actions@.take(k as int), pairing);
                assert(actions@.take(k as int + 1) =~= actions@.take(k as int).push(pairing));
                assert forall|i: int| 0 <= i < self@.len() implies (#[trigger] self@[i]).score + 3
                    * appearances(i, rest) <= i32::MAX by {
                    lemma_appearances_nonneg(i, rest);
                }
            }
        }
        proof {
            assert(actions@.take(total as int) =~= actions@);
        }
    }

    /// Play one epoch: enumerate every unordered pair in ascending order,
    /// have both sides commit before either learns anything, then resolve
    /// all pairings in order. Returns the epoch's transcript.
    pub fn world_loop(&mut self) -> (pairings: Vec<Pairing>)
        requires
            old(self).wf(),
            forall|i: int|
                0 <= i < old(self)@.len() ==> (#[trigger] old(self)@[i]).score + 3 * (old(
                    self,
                )@.len() - 1) <= i32::MAX,
        ensures
            epoch_pairings_ok(old(self)@, pairings@),
            pairings@.len() == num_pairs(old(self)@.len() as int),
            final(self)@ == agents_after(old(self)@, pairings@),
            final(self).wf(),
    {
        let n = self.agents.len();
        let mut pairings: Vec<Pairing> = Vec::new();
        for i in 0..n
            invariant
                n == self.agents@.len(),
                *self == *old(self),
                pairs_of(pairings@) + pairs_from(i as int, n as int) =~= all_pairs(n as int),
                forall|k: int|
                    0 <= k < pairings@.len() ==> valid_pairing(n as int, #[trigger] pairings@[k]),
                forall|k: int|
                    0 <= k < pairings@.len() ==> model_may_act(
                        self@[(#[trigger] pairings@[k]).0 as int].strategy,
                        pairings@[k].1,
                        pairings@[k].2,
                    ) && model_may_act(self@[pairings@[k].1 as int].strategy, pairings@[k].0, pairings@[k].3),
                forall|m: int|
                    0 <= m < n ==> appearances(m, pairings@) == (if m < i {
                        n - 1
                    } else {
                        i as int
                    }),
        {
            let ghost row_start: Seq<(usize, usize)> = pairs_of(pairings@);
            for j in (i + 1)..n
                invariant
                    n == self.agents@.len(),
                    *self == *old(self),
                    i < n,
                    row_start + row_pairs(i as int, i as int + 1, n as int) =~= pairs_of(
                        pairings@,
                    ) + row_pairs(i as int, j as int, n as int),
                    pairs_of(pairings@) + row_pairs(i as int, j as int, n as int) + pairs_from(
                        i as int + 1,
                        n as int,
                    ) =~= all_pairs(n as int),
                    forall|k: int|
                        0 <= k < pairings@.len() ==> valid_pairing(n as int, #[trigger] pairings@[k]),
                    forall|k: int|
                        0 <= k < pairings@.len() ==> model_may_act(
                            self@[(#[trigger] pairings@[k]).0 as int].strategy,
                            pairings@[k].1,
                            pairings@[k].2,
                        ) && model_may_act(
                            self@[pairings@[k].1 as int].strategy,
                            pairings@[k].0,
                            pairings@[k].3,
                        ),
                forall|m: int|
                    0 <= m < n ==> appearances(m, pairings@) == (if m < i {
                        n - 1
                    } else if m == i {
                        i + (j - i - 1)
                    } else if m < j {
                        i + 1
                    } else {
                        i as int
                    }),
            {
                let action1 = self.agents[i].act(j);
                let action2 = self.agents[j].act(i);
                let ghost before: Seq<Pairing> = pairings@;
                pairings.push((i, j, action1, action2));
                proof {
                    assert(pairs_of(pairings@) =~= pairs_of(before).push((i, j)));
                    assert(row_pairs(i as int, j as int, n as int) == seq![(i, j)] + row_pairs(
                        i as int,
                        j as int + 1,
                        n as int,
                    ));
                    assert(pairs_of(pairings@) + row_pairs(i as int, j as int + 1, n as int)
                        =~= pairs_of(before) + row_pairs(i as int, j as int, n as int));
                    assert forall|m: int| 0 <= m < n implies appearances(m, pairings@)
                        == appearances(m, before) + (if m == i || m == j {
                        1int
                    } else {
                        0int
                    }) by {
                        lemma_appearances_snoc(m, before, (i, j, action1, action2));
                    }
                }
            }
            proof {
                assert(row_pairs(i as int, n as int, n as int) =~= Seq::<(usize, usize)>::empty());
                assert(pairs_of(pairings@) + pairs_from(i as int + 1, n as int) =~= all_pairs(
                    n as int,
                ));
            }
        }
        proof {
            assert(pairs_from(n as int, n as int) =~= Seq::<(usize, usize)>::empty());
            assert(pairs_of(pairings@) =~= all_pairs(n as int));
            lemma_all_pairs_len(n as int);
            assert(pairings@.len() == pairs_of(pairings@).len());
            assert(forall|m: int| 0 <= m < n ==> appearances(m, pairings@) == n - 1);
        }
        self.update_scores(&pairings);
        proof {
            lemma_agents_after_frame(old(self)@, pairings@);
        }
        pairings
    }

    /// Report the standing of every agent, in population order: identity,
    /// strategy name and cumulative score.
    pub fn dump_state(&self) -> (report: Vec<(usize, String, i32)>)
        ensures
            report@.len() == self@.len(),
            forall|k: int|
                0 <= k < self@.len() ==> (#[trigger] report@[k]).0 == self@[k].id && report@[k].1@
                    == model_name(self@[k].strategy) && report@[k].2 as int == self@[k].score,
    {
        let mut report: Vec<(usize, String, i32)> = Vec::new();
        let n = self.agents.len();
        for k in 0..n
            invariant
                n == self.agents@.len(),
                report@.len() == k,
                forall|m: int|
                    0 <= m < k ==> (#[trigger] report@[m]).0 == self@[m].id && report@[m].1@
                        == model_name(self@[m].strategy) && report@[m].2 as int == self@[m].score,
        {
            let name = self.agents[k].strategy_name();
            report.push((self.agents[k].id, name, self.agents[k].score));
        }
        report
    }
}

} // verus!
