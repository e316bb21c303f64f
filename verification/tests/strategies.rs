use dilemma::contestants::{
    AlwaysCooperate, AlwaysDefect, GrimTrigger, OnlyBurntOnce, Pavlov, Random, TitForTat,
    TitForTwoTats, TwoTitsForTat,
};
use dilemma::strategy::{Action, Strategy};

#[test]
fn tit_for_tat_opens_cooperating() {
    let t = TitForTat::new();
    assert_eq!(t.act(0), Action::Cooperate);
    assert_eq!(t.act(42), Action::Cooperate);
}

#[test]
fn tit_for_tat_mirrors_last_action() {
    let mut t = TitForTat::new();
    t.feedback(7, Action::Defect);
    assert_eq!(t.act(7), Action::Defect);
    assert_eq!(t.act(8), Action::Cooperate);
    t.feedback(7, Action::Cooperate);
    assert_eq!(t.act(7), Action::Cooperate);
}

#[test]
fn always_defect_always_defects() {
    let mut s = AlwaysDefect::new();
    assert_eq!(s.act(0), Action::Defect);
    s.feedback(0, Action::Cooperate);
    assert_eq!(s.act(0), Action::Defect);
}

#[test]
fn always_cooperate_always_cooperates() {
    let mut s = AlwaysCooperate::new();
    assert_eq!(s.act(0), Action::Cooperate);
    s.feedback(0, Action::Defect);
    assert_eq!(s.act(0), Action::Cooperate);
}

#[test]
fn only_burnt_once_marks_per_opponent() {
    let mut s = OnlyBurntOnce::new();
    assert_eq!(s.act(1), Action::Cooperate);
    s.feedback(1, Action::Defect);
    // burnt by 1, but behaviour toward 2 is untouched
    assert_eq!(s.act(1), Action::Defect);
    assert_eq!(s.act(2), Action::Cooperate);
    // the mark never resets
    s.feedback(1, Action::Cooperate);
    assert_eq!(s.act(1), Action::Defect);
}

#[test]
fn grim_trigger_latches_globally() {
    let mut s = GrimTrigger::new();
    assert_eq!(s.act(1), Action::Cooperate);
    s.feedback(3, Action::Defect);
    // one defection from anyone poisons everyone, permanently
    assert_eq!(s.act(1), Action::Defect);
    assert_eq!(s.act(2), Action::Defect);
    assert_eq!(s.act(3), Action::Defect);
    s.feedback(3, Action::Cooperate);
    s.feedback(9, Action::Cooperate);
    assert_eq!(s.act(1), Action::Defect);
}

#[test]
fn random_returns_a_legal_action() {
    let s = Random::new();
    for _ in 0..32 {
        let a = s.act(0);
        assert!(a == Action::Cooperate || a == Action::Defect);
    }
}

#[test]
fn tit_for_two_tats_needs_two_defections() {
    let mut s = TitForTwoTats::new();
    s.feedback(4, Action::Defect);
    // exactly one defection must not trigger retaliation
    assert_eq!(s.act(4), Action::Cooperate);
    s.feedback(4, Action::Defect);
    // exactly two must
    assert_eq!(s.act(4), Action::Defect);
    // and the count is per-opponent
    assert_eq!(s.act(5), Action::Cooperate);
}

#[test]
fn two_tits_for_tat_uses_single_step_memory() {
    let mut s = TwoTitsForTat::new();
    assert_eq!(s.act(2), Action::Cooperate);
    s.feedback(2, Action::Defect);
    assert_eq!(s.act(2), Action::Defect);
    s.feedback(2, Action::Cooperate);
    assert_eq!(s.act(2), Action::Cooperate);
}

#[test]
fn pavlov_starts_successful() {
    let s = Pavlov::new();
    assert_eq!(s.act(0), Action::Cooperate);
    assert_eq!(s.act(17), Action::Cooperate);
}

#[test]
fn pavlov_follows_observed_action_globally() {
    let mut s = Pavlov::new();
    s.feedback(0, Action::Defect);
    // an observed defection makes the next round a defection, toward anyone
    assert_eq!(s.act(0), Action::Defect);
    assert_eq!(s.act(5), Action::Defect);
    // an observed cooperation restores it, toward anyone
    s.feedback(9, Action::Cooperate);
    assert_eq!(s.act(0), Action::Cooperate);
    assert_eq!(s.act(5), Action::Cooperate);
}

#[test]
fn strategies_identify_themselves() {
    assert_eq!(TitForTat::new().identify(), "TitForTat");
    assert_eq!(AlwaysDefect::new().identify(), "Always Defect");
    assert_eq!(AlwaysCooperate::new().identify(), "Always Cooperate");
    assert_eq!(OnlyBurntOnce::new().identify(), "Only Burnt Once");
    assert_eq!(GrimTrigger::new().identify(), "Grim Trigger");
    assert_eq!(Random::new().identify(), "Random");
    assert_eq!(TitForTwoTats::new().identify(), "Tit For Two Tats");
    assert_eq!(TwoTitsForTat::new().identify(), "Two Tits For Tat");
    assert_eq!(Pavlov::new().identify(), "Pavlov");
}
