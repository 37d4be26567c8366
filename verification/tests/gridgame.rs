use chipkit::perc::{percolates, BoolGrid};
use chipkit::trust::{
    CheatingAgent, CooperatingAgent, CopycatAgent, DetectiveAgent, Game, GrudgerAgent, Play,
    RoundOutcome,
};

#[test]
fn empty_grids_percolate() {
    assert!(percolates(&BoolGrid::new(0, 5)));
    assert!(percolates(&BoolGrid::new(5, 0)));
}

#[test]
fn open_grid_percolates_blocked_row_does_not() {
    let open = BoolGrid::new(4, 4);
    assert!(percolates(&open));

    let mut blocked = BoolGrid::new(4, 4);
    for x in 0..4 {
        blocked.set(x, 2, true);
    }
    assert!(!percolates(&blocked));
}

#[test]
fn percolation_follows_a_winding_path() {
    // A 3x3 grid where only a zig-zag path is open.
    let mut g = BoolGrid::new(3, 3);
    for x in 0..3 {
        for y in 0..3 {
            g.set(x, y, true);
        }
    }
    g.set(0, 0, false);
    g.set(0, 1, false);
    g.set(1, 1, false);
    g.set(2, 1, false);
    g.set(2, 2, false);
    assert!(percolates(&g));
    // Cutting the middle link breaks it.
    g.set(1, 1, true);
    assert!(!percolates(&g));
}

#[test]
fn grid_accessors_work() {
    let mut g = BoolGrid::new(3, 2);
    assert_eq!(g.width(), 3);
    assert_eq!(g.height(), 2);
    assert!(!g.get(2, 1));
    g.set(2, 1, true);
    assert!(g.get(2, 1));
    let roots = g.dfs_roots();
    assert_eq!(roots, vec![(0, 0), (1, 0), (2, 0)]);
    let nbs = g.neighbours(1, 0);
    assert_eq!(nbs, vec![(0, 0), (1, 1), (2, 0)]);
}

#[test]
fn cheater_exploits_cooperator() {
    let mut game = Game::new(CheatingAgent::new(), CooperatingAgent::new());
    for _ in 0..3 {
        assert_eq!(game.play_round(), RoundOutcome::LeftCheated);
    }
    assert_eq!(game.left_score(), 9);
    assert_eq!(game.right_score(), -3);
}

#[test]
fn cooperators_prosper_together() {
    let mut game = Game::new(CooperatingAgent::new(), CooperatingAgent::new());
    for _ in 0..5 {
        assert_eq!(game.play_round(), RoundOutcome::BothCooperated);
    }
    assert_eq!(game.left_score(), 10);
    assert_eq!(game.right_score(), 10);
}

#[test]
fn copycat_answers_cheating_in_kind() {
    let mut game = Game::new(CopycatAgent::new(), CheatingAgent::new());
    // The copycat opens cooperatively and is exploited once.
    assert_eq!(game.play_round(), RoundOutcome::RightCheated);
    // From then on it mirrors the cheater.
    for _ in 0..4 {
        assert_eq!(game.play_round(), RoundOutcome::BothCheated);
    }
    assert_eq!(game.left_score(), -1);
    assert_eq!(game.right_score(), 3);
}

#[test]
fn grudger_forgives_nothing() {
    let mut game = Game::new(GrudgerAgent::new(), CheatingAgent::new());
    assert_eq!(game.play_round(), RoundOutcome::RightCheated);
    for _ in 0..3 {
        assert_eq!(game.play_round(), RoundOutcome::BothCheated);
    }
}

#[test]
fn detective_probes_then_exploits_the_meek() {
    let mut game = Game::new(DetectiveAgent::new(), CooperatingAgent::new());
    assert_eq!(game.play_round(), RoundOutcome::BothCooperated);
    assert_eq!(game.play_round(), RoundOutcome::LeftCheated);
    assert_eq!(game.play_round(), RoundOutcome::BothCooperated);
    assert_eq!(game.play_round(), RoundOutcome::BothCooperated);
    // The opponent never cheated back: the detective turns on it.
    for _ in 0..3 {
        assert_eq!(game.play_round(), RoundOutcome::LeftCheated);
    }
}

#[test]
fn detective_turns_copycat_against_a_retaliator() {
    let mut game = Game::new(DetectiveAgent::new(), CheatingAgent::new());
    assert_eq!(game.play_round(), RoundOutcome::RightCheated);
    assert_eq!(game.play_round(), RoundOutcome::BothCheated);
    assert_eq!(game.play_round(), RoundOutcome::RightCheated);
    assert_eq!(game.play_round(), RoundOutcome::RightCheated);
    // Having been cheated during the opening, it now plays copycat.
    assert_eq!(game.play_round(), RoundOutcome::BothCheated);
    assert_eq!(game.play_round(), RoundOutcome::BothCheated);
}

#[test]
fn plays_default_to_cooperate() {
    assert_eq!(Play::default(), Play::Cooperate);
}
