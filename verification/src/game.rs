//! Games: one round of a player against a secret, and a run of rounds
//! that rates a player.

use vstd::prelude::*;
use crate::gen::Generator;
use crate::players::Player;
use crate::{Color, Oracle, PinState};

verus! {

/// How a game ended for the player.
#[derive(Debug, Clone, Copy, PartialEq, Eq, Structural)]
pub enum Outcome {
    /// The player named no row.
    GaveUp,
    /// The player named the secret.
    Won,
    /// The player named another row.
    Incorrect,
}

/// The outcome of a game with the secret `correct` in which the player
/// answered `answer`.
pub open spec fn verdict(correct: Seq<Color>, answer: Option<PinState>) -> Outcome {
    match answer {
        None => Outcome::GaveUp,
        Some(named) => if named@ == correct {
            Outcome::Won
        } else {
            Outcome::Incorrect
        },
    }
}

/// Holds the player's answer against the secret.
pub fn judge(correct: &PinState, answer: &Option<PinState>) -> (res: Outcome)
    ensures
        res == verdict(correct@, *answer),
{
    match answer {
        None => Outcome::GaveUp,
        Some(named) => if *named == *correct {
            Outcome::Won
        } else {
            Outcome::Incorrect
        },
    }
}

/// One finished game: what the player answered, what that is worth, and
/// how many guesses the oracle evaluated.
#[derive(Debug, Clone, Copy, PartialEq, Eq)]
pub struct Round {
    pub answer: Option<PinState>,
    pub outcome: Outcome,
    pub evals: u32,
}

/// Lets `player` play one game for the secret `correct`, against a fresh
/// oracle of its own: the round holds the player's answer and the number of
/// guesses that the oracle has evaluated for it, an ending that this player
/// can come to for this secret, and the outcome that the answer is worth.
pub fn play<P: Player>(correct: PinState, player: &P) -> (res: Round)
    ensures
        player.may_end(correct@, res.answer, res.evals as nat),
        res.outcome == verdict(correct@, res.answer),
{
    let mut o = Oracle::new(correct);
    let answer = player.play(&mut o);
    Round { answer, outcome: judge(&correct, &answer), evals: o.num_evals() }
}

/// The number of games in a benchmark.
pub const BENCH_ROUNDS: u32 = 100;

/// The record of a run of games.
#[derive(Debug, PartialEq, Eq)]
pub struct Tally {
    pub num_wins: u32,
    pub num_gave_up: u32,
    pub num_incorrect: u32,
    /// The evaluations that each game took, in the order of the games.
    pub evals: Vec<u32>,
}

impl Tally {
    /// As many games as are on record.
    pub open spec fn rounds(&self) -> nat {
        self.evals@.len()
    }

    /// Every game on record is counted under its outcome, once.
    pub open spec fn wf(&self) -> bool {
        self.num_wins + self.num_gave_up + self.num_incorrect == self.rounds()
    }

    /// The record of no game.
    pub fn new() -> (res: Self)
        ensures
            res.wf(),
            res.num_wins == 0,
            res.num_gave_up == 0,
            res.num_incorrect == 0,
            res.evals@ == Seq::<u32>::empty(),
    {
        Tally { num_wins: 0, num_gave_up: 0, num_incorrect: 0, evals: Vec::new() }
    }

    /// Adds a game that ended with `outcome` after `evals` evaluations.
    pub fn record(&mut self, outcome: Outcome, evals: u32)
        requires
            old(self).wf(),
            old(self).rounds() < u32::MAX,
        ensures
            final(self).wf(),
            final(self).evals@ == old(self).evals@.push(evals),
            final(self).num_wins == old(self).num_wins + if outcome == Outcome::Won {
                1int
            } else {
                0int
            },
            final(self).num_gave_up == old(self).num_gave_up + if outcome == Outcome::GaveUp {
                1int
            } else {
                0int
            },
            final(self).num_incorrect == old(self).num_incorrect + if outcome
                == Outcome::Incorrect {
                1int
            } else {
                0int
            },
    {
        match outcome {
            Outcome::GaveUp => self.num_gave_up += 1,
            Outcome::Won => self.num_wins += 1,
            Outcome::Incorrect => self.num_incorrect += 1,
        }
        self.evals.push(evals);
    }
}

/// The number of `games` that ended with `outcome`.
pub open spec fn ended(games: Seq<(Seq<Color>, Round)>, outcome: Outcome) -> nat
    decreases games.len(),
{
    if games.len() == 0 {
        0
    } else {
        ended(games.drop_last(), outcome) + if games.last().1.outcome == outcome {
            1nat
        } else {
            0nat
        }
    }
}

/// Where every one of `games` ended with `outcome`, all of them are
/// counted under it.
pub proof fn lemma_all_ended(games: Seq<(Seq<Color>, Round)>, outcome: Outcome)
    requires
        forall|k: int| 0 <= k < games.len() ==> (#[trigger] games[k]).1.outcome == outcome,
    ensures
        ended(games, outcome) == games.len(),
    decreases games.len(),
{
    if games.len() > 0 {
        lemma_all_ended(games.drop_last(), outcome);
    }
}

/// `tally` is the record of `games`, each a secret and the round played
/// for it: every secret is one that `generator` hands out, every round an
/// ending that `player` can come to for its secret and worth the outcome
/// it is counted under, and the evaluations stand in the order of the games.
pub open spec fn played<G: Generator, P: Player>(
    generator: G,
    player: P,
    games: Seq<(Seq<Color>, Round)>,
    tally: Tally,
) -> bool {
    &&& games.len() == tally.evals@.len()
    &&& forall|k: int|
        0 <= k < games.len() ==> {
            &&& generator.yields((#[trigger] games[k]).0)
            &&& player.may_end(games[k].0, games[k].1.answer, games[k].1.evals as nat)
            &&& games[k].1.outcome == verdict(games[k].0, games[k].1.answer)
            &&& tally.evals@[k] == games[k].1.evals
        }
    &&& tally.num_wins == ended(games, Outcome::Won)
    &&& tally.num_gave_up == ended(games, Outcome::GaveUp)
    &&& tally.num_incorrect == ended(games, Outcome::Incorrect)
}

/// Rates `player` over a hundred games, each for a fresh secret of
/// `generator` and against an oracle of its own: the tally is the record
/// of those games.
pub fn bench<G: Generator, P: Player>(generator: &G, player: &P) -> (res: Tally)
    ensures
        res.wf(),
        res.rounds() == BENCH_ROUNDS,
        exists|games: Seq<(Seq<Color>, Round)>| played(*generator, *player, games, res),
{
    let mut tally = Tally::new();
    let ghost mut games: Seq<(Seq<Color>, Round)> = Seq::empty();
    for n in 0..BENCH_ROUNDS
        invariant
            tally.wf(),
            tally.rounds() == n,
            played(*generator, *player, games, tally),
    {
        let correct = generator.gen();
        let round = play(correct, player);
        tally.record(round.outcome, round.evals);
        proof {
            let before = games;
            games = games.push((correct@, round));
            assert(games.drop_last() =~= before);
        }
    }
    tally
}

} // verus!
