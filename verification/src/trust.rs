//! An iterated trust game: two agents repeatedly choose to cooperate or
//! cheat, and score points by the round's outcome. Every agent is a
//! deterministic strategy whose next move and next state are pinned by its
//! specification.

use vstd::prelude::*;

verus! {

/// One move.
#[derive(Clone, Copy, Debug, PartialEq, Eq, Structural)]
pub enum Play {
    Cheat,
    Cooperate,
}

impl Default for Play {
    /// The default move is to cooperate.
    fn default() -> (p: Play)
        ensures
            p == Play::Cooperate,
    {
        Play::Cooperate
    }
}

/// How one round went.
#[derive(Clone, Copy, Debug, PartialEq, Eq, Structural)]
pub enum RoundOutcome {
    BothCooperated,
    LeftCheated,
    RightCheated,
    BothCheated,
}

/// The outcome of a round in which the two given moves were played.
pub open spec fn round_outcome(left: Play, right: Play) -> RoundOutcome {
    match (left, right) {
        (Play::Cheat, Play::Cheat) => RoundOutcome::BothCheated,
        (Play::Cheat, Play::Cooperate) => RoundOutcome::LeftCheated,
        (Play::Cooperate, Play::Cheat) => RoundOutcome::RightCheated,
        (Play::Cooperate, Play::Cooperate) => RoundOutcome::BothCooperated,
    }
}

/// What the left player's score gains from an outcome; the right player's
/// gain is the mirror image.
pub open spec fn left_delta(outcome: RoundOutcome) -> int {
    match outcome {
        RoundOutcome::BothCooperated => 2,
        RoundOutcome::LeftCheated => 3,
        RoundOutcome::RightCheated => -1,
        RoundOutcome::BothCheated => 0,
    }
}

/// What the right player's score gains from an outcome.
pub open spec fn right_delta(outcome: RoundOutcome) -> int {
    match outcome {
        RoundOutcome::BothCooperated => 2,
        RoundOutcome::LeftCheated => -1,
        RoundOutcome::RightCheated => 3,
        RoundOutcome::BothCheated => 0,
    }
}

/// A strategy: what it last played, and how it reacts to the opponent's
/// last move. `spec_action` pins both the move made and the strategy's
/// next state, so every agent is deterministic.
pub trait Action: Sized {
    /// The move this agent is on record as having last played.
    spec fn spec_last_play(&self) -> Play;

    /// The move the agent makes on seeing the opponent's last move, and
    /// the agent's state afterwards.
    spec fn spec_action(&self, last_play: Play) -> (Play, Self);

    /// The last move on record.
    fn last_play(&self) -> (p: Play)
        ensures
            p == self.spec_last_play(),
    ;

    /// Make a move.
    fn action(&mut self, last_play: Play) -> (p: Play)
        ensures
            p == old(self).spec_action(last_play).0,
            *final(self) == old(self).spec_action(last_play).1,
    ;
}

/// A score that rounds add to and subtract from.
pub trait Score: Sized {
    /// The current score.
    spec fn spec_score(&self) -> int;

    /// The same agent with its score replaced.
    spec fn with_score(self, score: int) -> Self;

    /// Read the score.
    fn score(&self) -> (s: i32)
        ensures
            s == self.spec_score(),
    ;

    /// Add `value` to the score.
    fn upd_score(&mut self, value: i32)
        requires
            i32::MIN <= old(self).spec_score() + value <= i32::MAX,
        ensures
            *final(self) == old(self).with_score(old(self).spec_score() + value),
            final(self).spec_score() == old(self).spec_score() + value,
    ;
}

/// A participant in the game.
pub trait Agent: Action + Score {

}

/// The left agent's state after a round, given both starting states. A
/// both-cheat round leaves the scores alone entirely.
pub open spec fn left_after_round<L: Agent, R: Agent>(left: L, right: R) -> L {
    let (la, l1) = left.spec_action(right.spec_last_play());
    let (ra, r1) = right.spec_action(l1.spec_last_play());
    if round_outcome(la, ra) is BothCheated {
        l1
    } else {
        l1.with_score(l1.spec_score() + left_delta(round_outcome(la, ra)))
    }
}

/// The right agent's state after a round.
pub open spec fn right_after_round<L: Agent, R: Agent>(left: L, right: R) -> R {
    let (la, l1) = left.spec_action(right.spec_last_play());
    let (ra, r1) = right.spec_action(l1.spec_last_play());
    if round_outcome(la, ra) is BothCheated {
        r1
    } else {
        r1.with_score(r1.spec_score() + right_delta(round_outcome(la, ra)))
    }
}

/// The outcome of a round between the two given starting states. The left
/// agent moves first, so the right agent reacts to the left agent's
/// just-updated record.
pub open spec fn spec_round<L: Agent, R: Agent>(left: L, right: R) -> RoundOutcome {
    let (la, l1) = left.spec_action(right.spec_last_play());
    let (ra, r1) = right.spec_action(l1.spec_last_play());
    round_outcome(la, ra)
}

/// Two agents playing against each other.
pub struct Game<L: Agent, R: Agent> {
    left: L,
    right: R,
}

impl<L: Agent, R: Agent> View for Game<L, R> {
    type V = (L, R);

    closed spec fn view(&self) -> (L, R) {
        (self.left, self.right)
    }
}

impl<L: Agent, R: Agent> Game<L, R> {
    pub fn new(left: L, right: R) -> (g: Game<L, R>)
        ensures
            g@ == (left, right),
    {
        Game { left, right }
    }

    /// The left agent's score.
    pub fn left_score(&self) -> (s: i32)
        ensures
            s == self@.0.spec_score(),
    {
        self.left.score()
    }

    /// The right agent's score.
    pub fn right_score(&self) -> (s: i32)
        ensures
            s == self@.1.spec_score(),
    {
        self.right.score()
    }

    /// Play one round: both agents move, then both scores take the
    /// outcome's gains. Cheating a cooperator pays 3 and costs the victim
    /// 1; mutual cooperation pays 2 each; mutual cheating pays nothing.
    pub fn play_round(&mut self) -> (outcome: RoundOutcome)
        requires
            ({
                let l1 = old(self)@.0.spec_action(old(self)@.1.spec_last_play()).1;
                let r1 = old(self)@.1.spec_action(l1.spec_last_play()).1;
                &&& i32::MIN + 1 <= l1.spec_score() <= i32::MAX - 3
                &&& i32::MIN + 1 <= r1.spec_score() <= i32::MAX - 3
            }),
        ensures
            outcome == spec_round(old(self)@.0, old(self)@.1),
            final(self)@.0 == left_after_round(old(self)@.0, old(self)@.1),
            final(self)@.1 == right_after_round(old(self)@.0, old(self)@.1),
    {
        let opp = self.right.last_play();
        let left_action = self.left.action(opp);
        let mine = self.left.last_play();
        let right_action = self.right.action(mine);

        match left_action {
            Play::Cheat => match right_action {
                Play::Cheat => RoundOutcome::BothCheated,
                Play::Cooperate => {
                    self.left.upd_score(3);
                    self.right.upd_score(-1);
                    RoundOutcome::LeftCheated
                },
            },
            Play::Cooperate => match right_action {
                Play::Cheat => {
                    self.left.upd_score(-1);
                    self.right.upd_score(3);
                    RoundOutcome::RightCheated
                },
                Play::Cooperate => {
                    self.left.upd_score(2);
                    self.right.upd_score(2);
                    RoundOutcome::BothCooperated
                },
            },
        }
    }
}

/// Always cheats.
pub struct CheatingAgent {
    pub score: i32,
}

impl CheatingAgent {
    pub fn new() -> (a: CheatingAgent)
        ensures
            a.spec_score() == 0,
    {
        CheatingAgent { score: 0 }
    }
}

impl Default for CheatingAgent {
    fn default() -> (a: CheatingAgent)
        ensures
            a.spec_score() == 0,
    {
        CheatingAgent::new()
    }
}

impl Agent for CheatingAgent {

}

impl Action for CheatingAgent {
    open spec fn spec_last_play(&self) -> Play {
        Play::Cheat
    }

    open spec fn spec_action(&self, last_play: Play) -> (Play, CheatingAgent) {
        (Play::Cheat, *self)
    }

    fn last_play(&self) -> (p: Play) {
        Play::Cheat
    }

    fn action(&mut self, _last_play: Play) -> (p: Play) {
        Play::Cheat
    }
}

impl Score for CheatingAgent {
    open spec fn spec_score(&self) -> int {
        self.score as int
    }

    open spec fn with_score(self, score: int) -> CheatingAgent {
        CheatingAgent { score: score as i32 }
    }

    fn score(&self) -> (s: i32) {
        self.score
    }

    fn upd_score(&mut self, value: i32) {
        self.score = self.score + value;
    }
}

/// Always cooperates.
pub struct CooperatingAgent {
    pub score: i32,
}

impl CooperatingAgent {
    pub fn new() -> (a: CooperatingAgent)
        ensures
            a.spec_score() == 0,
    {
        CooperatingAgent { score: 0 }
    }
}

impl Default for CooperatingAgent {
    fn default() -> (a: CooperatingAgent)
        ensures
            a.spec_score() == 0,
    {
        CooperatingAgent::new()
    }
}

impl Agent for CooperatingAgent {

}

impl Action for CooperatingAgent {
    open spec fn spec_last_play(&self) -> Play {
        Play::Cooperate
    }

    open spec fn spec_action(&self, last_play: Play) -> (Play, CooperatingAgent) {
        (Play::Cooperate, *self)
    }

    fn last_play(&self) -> (p: Play) {
        Play::Cooperate
    }

    fn action(&mut self, _last_play: Play) -> (p: Play) {
        Play::Cooperate
    }
}

impl Score for CooperatingAgent {
    open spec fn spec_score(&self) -> int {
        self.score as int
    }

    open spec fn with_score(self, score: int) -> CooperatingAgent {
        CooperatingAgent { score: score as i32 }
    }

    fn score(&self) -> (s: i32) {
        self.score
    }

    fn upd_score(&mut self, value: i32) {
        self.score = self.score + value;
    }
}

/// Cooperates until first betrayed, then cheats forever.
pub struct GrudgerAgent {
    pub score: i32,
    pub not_first_play: bool,
    pub cheated_once: Play,
}

impl GrudgerAgent {
    pub fn new() -> (a: GrudgerAgent)
        ensures
            a.spec_score() == 0,
            a == (GrudgerAgent { score: 0, not_first_play: false, cheated_once: Play::Cooperate }),
    {
        GrudgerAgent { score: 0, not_first_play: false, cheated_once: Play::Cooperate }
    }
}

impl Default for GrudgerAgent {
    fn default() -> (a: GrudgerAgent)
        ensures
            a == (GrudgerAgent { score: 0, not_first_play: false, cheated_once: Play::Cooperate }),
    {
        GrudgerAgent::new()
    }
}

impl Agent for GrudgerAgent {

}

impl Action for GrudgerAgent {
    open spec fn spec_last_play(&self) -> Play {
        Play::Cooperate
    }

    open spec fn spec_action(&self, last_play: Play) -> (Play, GrudgerAgent) {
        if !self.not_first_play {
            (Play::Cooperate, GrudgerAgent { not_first_play: true, ..*self })
        } else {
            let held = if last_play is Cheat {
                Play::Cheat
            } else {
                self.cheated_once
            };
            (held, GrudgerAgent { cheated_once: held, ..*self })
        }
    }

    fn last_play(&self) -> (p: Play) {
        Play::Cooperate
    }

    fn action(&mut self, last_play: Play) -> (p: Play) {
        if !self.not_first_play {
            self.not_first_play = true;
            return Play::Cooperate;
        }
        if matches!(last_play, Play::Cheat) {
            self.cheated_once = Play::Cheat;
        }
        self.cheated_once
    }
}

impl Score for GrudgerAgent {
    open spec fn spec_score(&self) -> int {
        self.score as int
    }

    open spec fn with_score(self, score: int) -> GrudgerAgent {
        GrudgerAgent { score: score as i32, ..self }
    }

    fn score(&self) -> (s: i32) {
        self.score
    }

    fn upd_score(&mut self, value: i32) {
        self.score = self.score + value;
    }
}

/// Cooperates first, then repeats the opponent's last move.
pub struct CopycatAgent {
    pub score: i32,
    pub not_first_play: bool,
    pub last_play: Play,
}

impl CopycatAgent {
    pub fn new() -> (a: CopycatAgent)
        ensures
            a.spec_score() == 0,
            a == (CopycatAgent { score: 0, not_first_play: false, last_play: Play::Cooperate }),
    {
        CopycatAgent { score: 0, not_first_play: false, last_play: Play::Cooperate }
    }
}

impl Default for CopycatAgent {
    fn default() -> (a: CopycatAgent)
        ensures
            a == (CopycatAgent { score: 0, not_first_play: false, last_play: Play::Cooperate }),
    {
        CopycatAgent::new()
    }
}

impl Agent for CopycatAgent {

}

impl Action for CopycatAgent {
    open spec fn spec_last_play(&self) -> Play {
        self.last_play
    }

    open spec fn spec_action(&self, last_play: Play) -> (Play, CopycatAgent) {
        if !self.not_first_play {
            (Play::Cooperate, CopycatAgent { not_first_play: true, ..*self })
        } else {
            (last_play, CopycatAgent { last_play: last_play, ..*self })
        }
    }

    fn last_play(&self) -> (p: Play) {
        self.last_play
    }

    fn action(&mut self, last_play: Play) -> (p: Play) {
        if !self.not_first_play {
            self.not_first_play = true;
            return Play::Cooperate;
        }
        self.last_play = last_play;
        last_play
    }
}

impl Score for CopycatAgent {
    open spec fn spec_score(&self) -> int {
        self.score as int
    }

    open spec fn with_score(self, score: int) -> CopycatAgent {
        CopycatAgent { score: score as i32, ..self }
    }

    fn score(&self) -> (s: i32) {
        self.score
    }

    fn upd_score(&mut self, value: i32) {
        self.score = self.score + value;
    }
}

/// Opens with cooperate, cheat, cooperate, cooperate. If the opponent
/// never cheated during that opening, cheats forever; otherwise plays as a
/// copycat.
pub struct DetectiveAgent {
    pub score: i32,
    pub counter: u32,
    pub last_action: Play,
    pub cheated: bool,
}

impl DetectiveAgent {
    pub fn new() -> (a: DetectiveAgent)
        ensures
            a.spec_score() == 0,
            a == (DetectiveAgent {
                score: 0,
                counter: 0,
                last_action: Play::Cooperate,
                cheated: false,
            }),
    {
        DetectiveAgent { score: 0, counter: 0, last_action: Play::Cooperate, cheated: false }
    }
}

impl Default for DetectiveAgent {
    fn default() -> (a: DetectiveAgent)
        ensures
            a == (DetectiveAgent {
                score: 0,
                counter: 0,
                last_action: Play::Cooperate,
                cheated: false,
            }),
    {
        DetectiveAgent::new()
    }
}

impl Agent for DetectiveAgent {

}

impl Action for DetectiveAgent {
    open spec fn spec_last_play(&self) -> Play {
        self.last_action
    }

    open spec fn spec_action(&self, last_play: Play) -> (Play, DetectiveAgent) {
        let saw_cheat = self.cheated || last_play is Cheat;
        if self.counter <= 3 {
            let mv = if self.counter == 1 {
                Play::Cheat
            } else {
                Play::Cooperate
            };
            (
                mv,
                DetectiveAgent {
                    counter: (self.counter + 1) as u32,
                    last_action: mv,
                    cheated: saw_cheat,
                    ..*self
                },
            )
        } else {
            let counter = if self.counter == 4 {
                5u32
            } else {
                self.counter
            };
            let mv = if saw_cheat {
                last_play
            } else {
                Play::Cheat
            };
            (
                mv,
                DetectiveAgent { counter, last_action: mv, cheated: saw_cheat, ..*self },
            )
        }
    }

    fn last_play(&self) -> (p: Play) {
        self.last_action
    }

    fn action(&mut self, last_play: Play) -> (p: Play) {
        if matches!(last_play, Play::Cheat) {
            self.cheated = true;
        }
        if self.counter <= 3 {
            self.counter = self.counter + 1;
            self.last_action = if self.counter == 2 {
                Play::Cheat
            } else {
                Play::Cooperate
            };
            return self.last_action;
        }
        if self.counter == 4 {
            self.counter = 5;
        }
        if self.cheated {
            self.last_action = last_play;
        } else {
            self.last_action = Play::Cheat;
        }
        self.last_action
    }
}

impl Score for DetectiveAgent {
    open spec fn spec_score(&self) -> int {
        self.score as int
    }

    open spec fn with_score(self, score: int) -> DetectiveAgent {
        DetectiveAgent { score: score as i32, ..self }
    }

    fn score(&self) -> (s: i32) {
        self.score
    }

    fn upd_score(&mut self, value: i32) {
        self.score = self.score + value;
    }
}

} // verus!
