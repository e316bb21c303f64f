use dilemma::contestants::{AlwaysCooperate, AlwaysDefect, Contestant, Random, TitForTat};
use dilemma::payoff::resolve_payoff;
use dilemma::strategy::Action;
use dilemma::world::{Agent, ConfigError, World};

fn two_agent_world(first: Contestant, second: Contestant) -> World {
    let agents = vec![Agent::new(0, first), Agent::new(1, second)];
    match World::new(agents) {
        Ok(world) => world,
        Err(_) => panic!("a two-agent population in order must be accepted"),
    }
}

#[test]
fn payoff_matrix_is_exact() {
    assert_eq!(resolve_payoff(Action::Cooperate, Action::Cooperate), (1, 1));
    assert_eq!(resolve_payoff(Action::Cooperate, Action::Defect), (3, 0));
    assert_eq!(resolve_payoff(Action::Defect, Action::Cooperate), (0, 3));
    assert_eq!(resolve_payoff(Action::Defect, Action::Defect), (2, 2));
}

#[test]
fn payoff_is_symmetric() {
    // the mixed pairings mirror each other with roles swapped
    let (a_silent, b_testifies) = resolve_payoff(Action::Cooperate, Action::Defect);
    let (a_testifies, b_silent) = resolve_payoff(Action::Defect, Action::Cooperate);
    assert_eq!(a_silent, b_silent);
    assert_eq!(b_testifies, a_testifies);
}

#[test]
fn world_rejects_too_few_agents() {
    match World::new(Vec::new()) {
        Ok(_) => panic!("an empty population must be rejected"),
        Err(e) => assert_eq!(e, ConfigError::TooFewAgents),
    }
    let one = vec![Agent::new(0, Contestant::Random(Random::new()))];
    match World::new(one) {
        Ok(_) => panic!("a single agent must be rejected"),
        Err(e) => assert_eq!(e, ConfigError::TooFewAgents),
    }
}

#[test]
fn world_rejects_misnumbered_identities() {
    let agents = vec![
        Agent::new(0, Contestant::Random(Random::new())),
        Agent::new(2, Contestant::Random(Random::new())),
    ];
    match World::new(agents) {
        Ok(_) => panic!("an identity off its position must be rejected"),
        Err(e) => assert_eq!(e, ConfigError::BadIdentity),
    }
}

#[test]
fn config_errors_describe_themselves() {
    assert_eq!(
        ConfigError::TooFewAgents.describe(),
        "population needs at least two agents"
    );
    assert_eq!(
        ConfigError::BadIdentity.describe(),
        "agent identities must equal their positions"
    );
}

#[test]
fn epoch_enumerates_pairs_in_order() {
    let agents = vec![
        Agent::new(0, Contestant::AlwaysCooperate(AlwaysCooperate::new())),
        Agent::new(1, Contestant::AlwaysCooperate(AlwaysCooperate::new())),
        Agent::new(2, Contestant::AlwaysCooperate(AlwaysCooperate::new())),
    ];
    let mut world = match World::new(agents) {
        Ok(world) => world,
        Err(_) => panic!("a three-agent population in order must be accepted"),
    };
    let pairings = world.world_loop();
    let pairs: Vec<(usize, usize)> = pairings.iter().map(|p| (p.0, p.1)).collect();
    assert_eq!(pairs, vec![(0, 1), (0, 2), (1, 2)]);
}

#[test]
fn tit_for_tat_vs_always_defect_two_epochs() {
    let mut world = two_agent_world(
        Contestant::TitForTat(TitForTat::new()),
        Contestant::AlwaysDefect(AlwaysDefect::new()),
    );
    // epoch 1: the fresh tit-for-tat cooperates, the defector testifies;
    // the lone cooperator serves 3 years, the testifier walks
    let first = world.world_loop();
    assert_eq!(first, vec![(0, 1, Action::Cooperate, Action::Defect)]);
    assert_eq!(world.agents[0].score, 3);
    assert_eq!(world.agents[1].score, 0);
    // epoch 2: tit-for-tat retaliates; both serve 2 more years
    let second = world.world_loop();
    assert_eq!(second, vec![(0, 1, Action::Defect, Action::Defect)]);
    assert_eq!(world.agents[0].score, 5);
    assert_eq!(world.agents[1].score, 2);
}

#[test]
fn two_cooperators_gain_one_point_per_epoch() {
    let mut world = two_agent_world(
        Contestant::AlwaysCooperate(AlwaysCooperate::new()),
        Contestant::AlwaysCooperate(AlwaysCooperate::new()),
    );
    let epochs: i32 = 5;
    for _ in 0..epochs {
        world.world_loop();
    }
    assert_eq!(world.agents[0].score, epochs);
    assert_eq!(world.agents[1].score, epochs);
}

#[test]
fn epoch_deltas_are_conserved() {
    let agents = vec![
        Agent::new(0, Contestant::TitForTat(TitForTat::new())),
        Agent::new(1, Contestant::AlwaysDefect(AlwaysDefect::new())),
        Agent::new(2, Contestant::Random(Random::new())),
    ];
    let mut world = match World::new(agents) {
        Ok(world) => world,
        Err(_) => panic!("a three-agent population in order must be accepted"),
    };
    for _ in 0..4 {
        let before: i32 = world.agents.iter().map(|a| a.score).sum();
        let pairings = world.world_loop();
        let delta: i32 = pairings
            .iter()
            .map(|p| {
                let (d1, d2) = resolve_payoff(p.2, p.3);
                d1 + d2
            })
            .sum();
        let after: i32 = world.agents.iter().map(|a| a.score).sum();
        assert_eq!(after, before + delta);
    }
}

#[test]
fn dump_state_reports_population_in_order() {
    let mut world = two_agent_world(
        Contestant::TitForTat(TitForTat::new()),
        Contestant::AlwaysDefect(AlwaysDefect::new()),
    );
    world.world_loop();
    let report = world.dump_state();
    assert_eq!(report.len(), 2);
    assert_eq!(report[0].0, 0);
    assert_eq!(report[0].1, "TitForTat");
    assert_eq!(report[0].2, 3);
    assert_eq!(report[1].0, 1);
    assert_eq!(report[1].1, "Always Defect");
    assert_eq!(report[1].2, 0);
}

#[test]
fn agents_delegate_to_their_strategy() {
    let mut agent = Agent::new(3, Contestant::TitForTat(TitForTat::new()));
    assert_eq!(agent.strategy_name(), "TitForTat");
    assert_eq!(agent.score, 0);
    assert_eq!(agent.act(1), Action::Cooperate);
    agent.feedback(1, Action::Defect);
    assert_eq!(agent.act(1), Action::Defect);
    assert_eq!(agent.act(2), Action::Cooperate);
}
