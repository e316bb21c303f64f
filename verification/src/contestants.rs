//! The concrete decision strategies and their shared mathematical model.
//!
//! Every strategy's observable state is mirrored by a [`StrategyModel`]
//! value, and the three transition functions over that model —
//! [`model_may_act`], [`model_feedback`] and [`model_name`] — are the single
//! statement of what each variant does. The executable types are verified
//! against them, and the round engine's contracts are stated over them.

use vstd::prelude::*;

use std::collections::HashMap;

use crate::strategy::{Action, Strategy};

verus! {

broadcast use vstd::std_specs::hash::group_hash_axioms, vstd::string::group_string_axioms;

/// The specification-level state of a strategy: what it remembers, keyed by
/// opponent identity where the memory is per-opponent.
#[verifier::ext_equal]
#[allow(inconsistent_fields)]
pub enum StrategyModel {
    TitForTat { black_list: Map<usize, Action> },
    AlwaysDefect,
    AlwaysCooperate,
    OnlyBurntOnce { black_list: Map<usize, bool> },
    GrimTrigger { defected: bool },
    Random,
    TitForTwoTats { defect_count: Map<usize, usize> },
    TwoTitsForTat { last_action: Map<usize, Action> },
    Pavlov { last_successful: bool },
}

/// Which actions a strategy in state `m` may commit to against opponent
/// `opponent_id`. Every variant but `Random` admits exactly one action.
pub open spec fn model_may_act(m: StrategyModel, opponent_id: usize, action: Action) -> bool {
    match m {
        StrategyModel::TitForTat { black_list } => action == (if black_list.contains_key(
            opponent_id,
        ) {
            black_list[opponent_id]
        } else {
            Action::Cooperate
        }),
        StrategyModel::AlwaysDefect => action == Action::Defect,
        StrategyModel::AlwaysCooperate => action == Action::Cooperate,
        StrategyModel::OnlyBurntOnce { black_list } => action == (if black_list.contains_key(
            opponent_id,
        ) && black_list[opponent_id] {
            Action::Defect
        } else {
            Action::Cooperate
        }),
        StrategyModel::GrimTrigger { defected } => action == (if defected {
            Action::Defect
        } else {
            Action::Cooperate
        }),
        StrategyModel::Random => true,
        StrategyModel::TitForTwoTats { defect_count } => action == (if defect_count.contains_key(
            opponent_id,
        ) && defect_count[opponent_id] >= 2 {
            Action::Defect
        } else {
            Action::Cooperate
        }),
        StrategyModel::TwoTitsForTat { last_action } => action == (if last_action.contains_key(
            opponent_id,
        ) && last_action[opponent_id] == Action::Defect {
            Action::Defect
        } else {
            Action::Cooperate
        }),
        StrategyModel::Pavlov { last_successful } => action == (if last_successful {
            Action::Cooperate
        } else {
            Action::Defect
        }),
    }
}

/// The state a strategy in state `m` reaches once told that opponent
/// `opponent_id` played `action`. Deterministic for every variant.
pub open spec fn model_feedback(m: StrategyModel, opponent_id: usize, action: Action) -> StrategyModel {
    match m {
        StrategyModel::TitForTat { black_list } => StrategyModel::TitForTat {
            black_list: black_list.insert(opponent_id, action),
        },
        StrategyModel::AlwaysDefect => m,
        StrategyModel::AlwaysCooperate => m,
        StrategyModel::OnlyBurntOnce { black_list } => {
            if action == Action::Defect {
                StrategyModel::OnlyBurntOnce { black_list: black_list.insert(opponent_id, true) }
            } else {
                m
            }
        },
        StrategyModel::GrimTrigger { defected } => StrategyModel::GrimTrigger {
            defected: defected || action == Action::Defect,
        },
        StrategyModel::Random => m,
        StrategyModel::TitForTwoTats { defect_count } => {
            if action == Action::Defect {
                let seen: usize = if defect_count.contains_key(opponent_id) {
                    defect_count[opponent_id]
                } else {
                    0
                };
                if seen < 2 {
                    StrategyModel::TitForTwoTats {
                        defect_count: defect_count.insert(opponent_id, (seen + 1) as usize),
                    }
                } else {
                    m
                }
            } else {
                m
            }
        },
        StrategyModel::TwoTitsForTat { last_action } => StrategyModel::TwoTitsForTat {
            last_action: last_action.insert(opponent_id, action),
        },
        StrategyModel::Pavlov { .. } => StrategyModel::Pavlov {
            last_successful: action == Action::Cooperate,
        },
    }
}

/// The stable display name of a strategy in state `m`.
pub open spec fn model_name(m: StrategyModel) -> Seq<char> {
    match m {
        StrategyModel::TitForTat { .. } => "TitForTat"@,
        StrategyModel::AlwaysDefect => "Always Defect"@,
        StrategyModel::AlwaysCooperate => "Always Cooperate"@,
        StrategyModel::OnlyBurntOnce { .. } => "Only Burnt Once"@,
        StrategyModel::GrimTrigger { .. } => "Grim Trigger"@,
        StrategyModel::Random => "Random"@,
        StrategyModel::TitForTwoTats { .. } => "Tit For Two Tats"@,
        StrategyModel::TwoTitsForTat { .. } => "Two Tits For Tat"@,
        StrategyModel::Pavlov { .. } => "Pavlov"@,
    }
}

/// The state a strategy reaches after a whole sequence of feedback events,
/// each an opponent identity and the action observed from it.
pub open spec fn model_fed_all(m: StrategyModel, events: Seq<(usize, Action)>) -> StrategyModel
    decreases events.len(),
{
    if events.len() == 0 {
        m
    } else {
        model_fed_all(model_feedback(m, events[0].0, events[0].1), events.drop_first())
    }
}

/// A tit-for-tat player that has no history with an opponent opens by
/// cooperating with it.
pub proof fn lemma_tit_for_tat_opens_kindly(
    black_list: Map<usize, Action>,
    opponent_id: usize,
    action: Action,
)
    requires
        !black_list.contains_key(opponent_id),
        model_may_act(StrategyModel::TitForTat { black_list }, opponent_id, action),
    ensures
        action == Action::Cooperate,
{
}

/// A triggered grim player stays triggered through any further feedback.
proof fn lemma_grim_trigger_holds(m: StrategyModel, events: Seq<(usize, Action)>)
    requires
        m == (StrategyModel::GrimTrigger { defected: true }),
    ensures
        model_fed_all(m, events) == m,
    decreases events.len(),
{
    if events.len() > 0 {
        lemma_grim_trigger_holds(model_feedback(m, events[0].0, events[0].1), events.drop_first());
    }
}

/// Once a grim player observes a single defection from any opponent, every
/// later `act`, against every opponent and after any further feedback,
/// is a defection, permanently.
pub proof fn lemma_grim_trigger_never_forgives(
    m: StrategyModel,
    first_opponent: usize,
    events: Seq<(usize, Action)>,
)
    requires
        m is GrimTrigger,
    ensures
        forall|opponent_id: usize, action: Action|
            model_may_act(
                model_fed_all(model_feedback(m, first_opponent, Action::Defect), events),
                opponent_id,
                action,
            ) ==> action == Action::Defect,
{
    let triggered = model_feedback(m, first_opponent, Action::Defect);
    lemma_grim_trigger_holds(triggered, events);
}

/// Per-opponent isolation of the burnt-once player: feedback from one
/// opponent leaves its behaviour toward every other opponent exactly as it
/// was.
pub proof fn lemma_only_burnt_once_isolates(
    black_list: Map<usize, bool>,
    burner: usize,
    other: usize,
    observed: Action,
    action: Action,
)
    requires
        burner != other,
    ensures
        model_may_act(
            model_feedback(StrategyModel::OnlyBurntOnce { black_list }, burner, observed),
            other,
            action,
        ) <==> model_may_act(StrategyModel::OnlyBurntOnce { black_list }, other, action),
{
}

/// A tit-for-two-tats player with no defection on record for an opponent
/// still cooperates after exactly one observed defection, and retaliates
/// after exactly two.
pub proof fn lemma_tit_for_two_tats_needs_two(defect_count: Map<usize, usize>, opponent_id: usize)
    requires
        !defect_count.contains_key(opponent_id) || defect_count[opponent_id] == 0,
    ensures
        forall|action: Action|
            model_may_act(
                model_feedback(
                    StrategyModel::TitForTwoTats { defect_count },
                    opponent_id,
                    Action::Defect,
                ),
                opponent_id,
                action,
            ) ==> action == Action::Cooperate,
        forall|action: Action|
            model_may_act(
                model_feedback(
                    model_feedback(
                        StrategyModel::TitForTwoTats { defect_count },
                        opponent_id,
                        Action::Defect,
                    ),
                    opponent_id,
                    Action::Defect,
                ),
                opponent_id,
                action,
            ) ==> action == Action::Defect,
{
}

/// A fresh Pavlov player starts in the successful state and so opens by
/// cooperating.
pub proof fn lemma_pavlov_opens_kindly(opponent_id: usize, action: Action)
    requires
        model_may_act(StrategyModel::Pavlov { last_successful: true }, opponent_id, action),
    ensures
        action == Action::Cooperate,
{
}

/// Pavlov's state is global, not per-opponent: whatever it held before —
/// even right after defecting itself — its next action toward every
/// opponent equals the action it last observed, whoever it came from. In
/// particular one observed cooperation restores it to cooperating
/// everywhere.
pub proof fn lemma_pavlov_follows_observation(
    last_successful: bool,
    observed_from: usize,
    observed: Action,
    opponent_id: usize,
    action: Action,
)
    ensures
        model_may_act(
            model_feedback(StrategyModel::Pavlov { last_successful }, observed_from, observed),
            opponent_id,
            action,
        ) <==> action == observed,
{
}

/// Repeats the opponent's most recent action toward this agent; cooperates
/// against an opponent it has never seen.
pub struct TitForTat {
    black_list: HashMap<usize, Action>,
}

impl TitForTat {
    pub closed spec fn model(&self) -> StrategyModel {
        StrategyModel::TitForTat { black_list: self.black_list@ }
    }

    pub fn new() -> (s: Self)
        ensures
            s.model() == (StrategyModel::TitForTat {
                black_list: Map::<usize, Action>::empty(),
            }),
    {
        TitForTat { black_list: HashMap::new() }
    }
}

impl Strategy for TitForTat {
    open spec fn may_act(&self, opponent_id: usize, action: Action) -> bool {
        model_may_act(self.model(), opponent_id, action)
    }

    open spec fn after_feedback(&self, opponent_id: usize, action: Action, post: Self) -> bool {
        post.model() == model_feedback(self.model(), opponent_id, action)
    }

    open spec fn spec_name(&self) -> Seq<char> {
        model_name(self.model())
    }

    fn act(&self, opponent_id: usize) -> Action {
        match self.black_list.get(&opponent_id) {
            Some(last) => *last,
            None => Action::Cooperate,
        }
    }

    fn feedback(&mut self, opponent_id: usize, action: Action) {
        self.black_list.insert(opponent_id, action);
    }

    fn identify(&self) -> String {
        "TitForTat".to_string()
    }
}

/// Testifies in every pairing, whatever the history.
pub struct AlwaysDefect {}

impl AlwaysDefect {
    pub closed spec fn model(&self) -> StrategyModel {
        StrategyModel::AlwaysDefect
    }

    pub fn new() -> (s: Self)
        ensures
            s.model() == StrategyModel::AlwaysDefect,
    {
        AlwaysDefect {  }
    }
}

impl Strategy for AlwaysDefect {
    open spec fn may_act(&self, opponent_id: usize, action: Action) -> bool {
        model_may_act(self.model(), opponent_id, action)
    }

    open spec fn after_feedback(&self, opponent_id: usize, action: Action, post: Self) -> bool {
        post.model() == model_feedback(self.model(), opponent_id, action)
    }

    open spec fn spec_name(&self) -> Seq<char> {
        model_name(self.model())
    }

    fn act(&self, opponent_id: usize) -> Action {
        Action::Defect
    }

    fn feedback(&mut self, opponent_id: usize, action: Action) {
    }

    fn identify(&self) -> String {
        "Always Defect".to_string()
    }
}

/// Stays silent in every pairing, whatever the history.
pub struct AlwaysCooperate {}

impl AlwaysCooperate {
    pub closed spec fn model(&self) -> StrategyModel {
        StrategyModel::AlwaysCooperate
    }

    pub fn new() -> (s: Self)
        ensures
            s.model() == StrategyModel::AlwaysCooperate,
    {
        AlwaysCooperate {  }
    }
}

impl Strategy for AlwaysCooperate {
    open spec fn may_act(&self, opponent_id: usize, action: Action) -> bool {
        model_may_act(self.model(), opponent_id, action)
    }

    open spec fn after_feedback(&self, opponent_id: usize, action: Action, post: Self) -> bool {
        post.model() == model_feedback(self.model(), opponent_id, action)
    }

    open spec fn spec_name(&self) -> Seq<char> {
        model_name(self.model())
    }

    fn act(&self, opponent_id: usize) -> Action {
        Action::Cooperate
    }

    fn feedback(&mut self, opponent_id: usize, action: Action) {
    }

    fn identify(&self) -> String {
        "Always Cooperate".to_string()
    }
}

/// Defects against an opponent exactly from the moment that opponent has
/// defected against it once; the mark is per-opponent and never resets.
pub struct OnlyBurntOnce {
    black_list: HashMap<usize, bool>,
}

impl OnlyBurntOnce {
    pub closed spec fn model(&self) -> StrategyModel {
        StrategyModel::OnlyBurntOnce { black_list: self.black_list@ }
    }

    pub fn new() -> (s: Self)
        ensures
            s.model() == (StrategyModel::OnlyBurntOnce {
                black_list: Map::<usize, bool>::empty(),
            }),
    {
        OnlyBurntOnce { black_list: HashMap::new() }
    }
}

impl Strategy for OnlyBurntOnce {
    open spec fn may_act(&self, opponent_id: usize, action: Action) -> bool {
        model_may_act(self.model(), opponent_id, action)
    }

    open spec fn after_feedback(&self, opponent_id: usize, action: Action, post: Self) -> bool {
        post.model() == model_feedback(self.model(), opponent_id, action)
    }

    open spec fn spec_name(&self) -> Seq<char> {
        model_name(self.model())
    }

    fn act(&self, opponent_id: usize) -> Action {
        let burnt = match self.black_list.get(&opponent_id) {
            Some(flag) => *flag,
            None => false,
        };
        if burnt {
            Action::Defect
        } else {
            Action::Cooperate
        }
    }

    fn feedback(&mut self, opponent_id: usize, action: Action) {
        if action == Action::Defect {
            self.black_list.insert(opponent_id, true);
        }
    }

    fn identify(&self) -> String {
        "Only Burnt Once".to_string()
    }
}

/// Cooperates until any opponent defects against it once; from then on it
/// defects against everyone, permanently. The flag is global, not
/// per-opponent.
pub struct GrimTrigger {
    defected: bool,
}

impl GrimTrigger {
    pub closed spec fn model(&self) -> StrategyModel {
        StrategyModel::GrimTrigger { defected: self.defected }
    }

    pub fn new() -> (s: Self)
        ensures
            s.model() == (StrategyModel::GrimTrigger { defected: false }),
    {
        GrimTrigger { defected: false }
    }
}

impl Strategy for GrimTrigger {
    open spec fn may_act(&self, opponent_id: usize, action: Action) -> bool {
        model_may_act(self.model(), opponent_id, action)
    }

    open spec fn after_feedback(&self, opponent_id: usize, action: Action, post: Self) -> bool {
        post.model() == model_feedback(self.model(), opponent_id, action)
    }

    open spec fn spec_name(&self) -> Seq<char> {
        model_name(self.model())
    }

    fn act(&self, opponent_id: usize) -> Action {
        if self.defected {
            Action::Defect
        } else {
            Action::Cooperate
        }
    }

    fn feedback(&mut self, opponent_id: usize, action: Action) {
        if action == Action::Defect {
            self.defected = true;
        }
    }

    fn identify(&self) -> String {
        "Grim Trigger".to_string()
    }
}

/// Flips an even coin on every call, independently per call, and keeps no
/// memory.
pub struct Random {}

impl Random {
    pub closed spec fn model(&self) -> StrategyModel {
        StrategyModel::Random
    }

    pub fn new() -> (s: Self)
        ensures
            s.model() == StrategyModel::Random,
    {
        Random {  }
    }
}

/// Relies on `rand::random::<bool>`: a uniform, independent coin flip drawn
/// from the thread-local generator.
#[verifier::external_body]
fn coin_flip() -> bool {
    rand::random::<bool>()
}

impl Strategy for Random {
    open spec fn may_act(&self, opponent_id: usize, action: Action) -> bool {
        model_may_act(self.model(), opponent_id, action)
    }

    open spec fn after_feedback(&self, opponent_id: usize, action: Action, post: Self) -> bool {
        post.model() == model_feedback(self.model(), opponent_id, action)
    }

    open spec fn spec_name(&self) -> Seq<char> {
        model_name(self.model())
    }

    fn act(&self, opponent_id: usize) -> Action {
        if coin_flip() {
            Action::Cooperate
        } else {
            Action::Defect
        }
    }

    fn feedback(&mut self, opponent_id: usize, action: Action) {
    }

    fn identify(&self) -> String {
        "Random".to_string()
    }
}

/// Retaliates against an opponent only once that opponent has defected
/// against it at least twice in total; the per-opponent count never goes
/// down.
pub struct TitForTwoTats {
    defect_count: HashMap<usize, usize>,
}

impl TitForTwoTats {
    pub closed spec fn model(&self) -> StrategyModel {
        StrategyModel::TitForTwoTats { defect_count: self.defect_count@ }
    }

    pub fn new() -> (s: Self)
        ensures
            s.model() == (StrategyModel::TitForTwoTats {
                defect_count: Map::<usize, usize>::empty(),
            }),
    {
        TitForTwoTats { defect_count: HashMap::new() }
    }
}

impl Strategy for TitForTwoTats {
    open spec fn may_act(&self, opponent_id: usize, action: Action) -> bool {
        model_may_act(self.model(), opponent_id, action)
    }

    open spec fn after_feedback(&self, opponent_id: usize, action: Action, post: Self) -> bool {
        post.model() == model_feedback(self.model(), opponent_id, action)
    }

    open spec fn spec_name(&self) -> Seq<char> {
        model_name(self.model())
    }

    fn act(&self, opponent_id: usize) -> Action {
        let seen = match self.defect_count.get(&opponent_id) {
            Some(count) => *count,
            None => 0,
        };
        if seen >= 2 {
            Action::Defect
        } else {
            Action::Cooperate
        }
    }

    fn feedback(&mut self, opponent_id: usize, action: Action) {
        if action == Action::Defect {
            let seen = match self.defect_count.get(&opponent_id) {
                Some(count) => *count,
                None => 0,
            };
            // Past two the count no longer changes behaviour, so it is kept
            // at two rather than grown without bound.
            if seen < 2 {
                self.defect_count.insert(opponent_id, seen + 1);
            }
        }
    }

    fn identify(&self) -> String {
        "Tit For Two Tats".to_string()
    }
}

/// Defects exactly when the opponent's immediately preceding action toward
/// it was a defection; single-step memory despite the name.
pub struct TwoTitsForTat {
    last_action: HashMap<usize, Action>,
}

impl TwoTitsForTat {
    pub closed spec fn model(&self) -> StrategyModel {
        StrategyModel::TwoTitsForTat { last_action: self.last_action@ }
    }

    pub fn new() -> (s: Self)
        ensures
            s.model() == (StrategyModel::TwoTitsForTat {
                last_action: Map::<usize, Action>::empty(),
            }),
    {
        TwoTitsForTat { last_action: HashMap::new() }
    }
}

impl Strategy for TwoTitsForTat {
    open spec fn may_act(&self, opponent_id: usize, action: Action) -> bool {
        model_may_act(self.model(), opponent_id, action)
    }

    open spec fn after_feedback(&self, opponent_id: usize, action: Action, post: Self) -> bool {
        post.model() == model_feedback(self.model(), opponent_id, action)
    }

    open spec fn spec_name(&self) -> Seq<char> {
        model_name(self.model())
    }

    fn act(&self, opponent_id: usize) -> Action {
        let retaliate = match self.last_action.get(&opponent_id) {
            Some(last) => *last == Action::Defect,
            None => false,
        };
        if retaliate {
            Action::Defect
        } else {
            Action::Cooperate
        }
    }

    fn feedback(&mut self, opponent_id: usize, action: Action) {
        self.last_action.insert(opponent_id, action);
    }

    fn identify(&self) -> String {
        "Two Tits For Tat".to_string()
    }
}

/// Cooperates exactly when its single global "last round was successful"
/// flag is set; the flag starts set and is rewritten on every feedback to
/// whether the observed action was a cooperation.
pub struct Pavlov {
    last_successful: bool,
}

impl Pavlov {
    pub closed spec fn model(&self) -> StrategyModel {
        StrategyModel::Pavlov { last_successful: self.last_successful }
    }

    pub fn new() -> (s: Self)
        ensures
            s.model() == (StrategyModel::Pavlov { last_successful: true }),
    {
        Pavlov { last_successful: true }
    }
}

impl Strategy for Pavlov {
    open spec fn may_act(&self, opponent_id: usize, action: Action) -> bool {
        model_may_act(self.model(), opponent_id, action)
    }

    open spec fn after_feedback(&self, opponent_id: usize, action: Action, post: Self) -> bool {
        post.model() == model_feedback(self.model(), opponent_id, action)
    }

    open spec fn spec_name(&self) -> Seq<char> {
        model_name(self.model())
    }

    fn act(&self, opponent_id: usize) -> Action {
        if self.last_successful {
            Action::Cooperate
        } else {
            Action::Defect
        }
    }

    fn feedback(&mut self, opponent_id: usize, action: Action) {
        self.last_successful = action == Action::Cooperate;
    }

    fn identify(&self) -> String {
        "Pavlov".to_string()
    }
}

/// A strategy of any variant, ready to be owned by an agent: the
/// closed-world stand-in for dynamic dispatch over [`Strategy`].
pub enum Contestant {
    TitForTat(TitForTat),
    AlwaysDefect(AlwaysDefect),
    AlwaysCooperate(AlwaysCooperate),
    OnlyBurntOnce(OnlyBurntOnce),
    GrimTrigger(GrimTrigger),
    Random(Random),
    TitForTwoTats(TitForTwoTats),
    TwoTitsForTat(TwoTitsForTat),
    Pavlov(Pavlov),
}

impl Contestant {
    pub open spec fn model(&self) -> StrategyModel {
        match self {
            Contestant::TitForTat(s) => s.model(),
            Contestant::AlwaysDefect(s) => s.model(),
            Contestant::AlwaysCooperate(s) => s.model(),
            Contestant::OnlyBurntOnce(s) => s.model(),
            Contestant::GrimTrigger(s) => s.model(),
            Contestant::Random(s) => s.model(),
            Contestant::TitForTwoTats(s) => s.model(),
            Contestant::TwoTitsForTat(s) => s.model(),
            Contestant::Pavlov(s) => s.model(),
        }
    }
}

impl Strategy for Contestant {
    open spec fn may_act(&self, opponent_id: usize, action: Action) -> bool {
        model_may_act(self.model(), opponent_id, action)
    }

    open spec fn after_feedback(&self, opponent_id: usize, action: Action, post: Self) -> bool {
        post.model() == model_feedback(self.model(), opponent_id, action)
    }

    open spec fn spec_name(&self) -> Seq<char> {
        model_name(self.model())
    }

    fn act(&self, opponent_id: usize) -> Action {
        match self {
            Contestant::TitForTat(s) => s.act(opponent_id),
            Contestant::AlwaysDefect(s) => s.act(opponent_id),
            Contestant::AlwaysCooperate(s) => s.act(opponent_id),
            Contestant::OnlyBurntOnce(s) => s.act(opponent_id),
            Contestant::GrimTrigger(s) => s.act(opponent_id),
            Contestant::Random(s) => s.act(opponent_id),
            Contestant::TitForTwoTats(s) => s.act(opponent_id),
            Contestant::TwoTitsForTat(s) => s.act(opponent_id),
            Contestant::Pavlov(s) => s.act(opponent_id),
        }
    }

    fn feedback(&mut self, opponent_id: usize, action: Action) {
        match self {
            Contestant::TitForTat(s) => s.feedback(opponent_id, action),
            Contestant::AlwaysDefect(s) => s.feedback(opponent_id, action),
            Contestant::AlwaysCooperate(s) => s.feedback(opponent_id, action),
            Contestant::OnlyBurntOnce(s) => s.feedback(opponent_id, action),
            Contestant::GrimTrigger(s) => s.feedback(opponent_id, action),
            Contestant::Random(s) => s.feedback(opponent_id, action),
            Contestant::TitForTwoTats(s) => s.feedback(opponent_id, action),
            Contestant::TwoTitsForTat(s) => s.feedback(opponent_id, action),
            Contestant::Pavlov(s) => s.feedback(opponent_id, action),
        }
    }

    fn identify(&self) -> String {
        match self {
            Contestant::TitForTat(s) => s.identify(),
            Contestant::AlwaysDefect(s) => s.identify(),
            Contestant::AlwaysCooperate(s) => s.identify(),
            Contestant::OnlyBurntOnce(s) => s.identify(),
            Contestant::GrimTrigger(s) => s.identify(),
            Contestant::Random(s) => s.identify(),
            Contestant::TitForTwoTats(s) => s.identify(),
            Contestant::TwoTitsForTat(s) => s.identify(),
            Contestant::Pavlov(s) => s.identify(),
        }
    }
}

} // verus!
