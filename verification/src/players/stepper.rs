use vstd::prelude::*;
use crate::oracle::{black_among, black_pegs, lemma_four_black_iff_equal};
use crate::players::Player;
use crate::{Color, Eval, Oracle, PinState};

verus! {

/// The colors that the stepper tries in a slot, in this order, after blue.
pub const OTHER_COLORS: [Color; 5] = [
    Color::Green,
    Color::Yellow,
    Color::Magenta,
    Color::Red,
    Color::Cyan,
];

/// The number of guesses that settle a slot of the secret which holds `c`:
/// a blue pin is known by the first trial, which loses a black peg; any
/// other color by the trial that gains one.
pub open spec fn trials_for(c: Color) -> nat {
    match c {
        Color::Blue => 1,
        Color::Green => 1,
        Color::Yellow => 2,
        Color::Magenta => 3,
        Color::Red => 4,
        Color::Cyan => 5,
    }
}

/// The secret's slots from `d` on are all blue.
pub open spec fn blue_from(secret: Seq<Color>, d: int) -> bool {
    forall|i: int| d <= i < 4 ==> secret[i] == Color::Blue
}

/// The number of guesses that the stepper spends on the slots from `d` on:
/// none once the rest of the secret is blue, as the guess is then right.
pub open spec fn trials_from(secret: Seq<Color>, d: nat) -> nat
    decreases 4 - d,
{
    if d >= 4 || blue_from(secret, d as int) {
        0
    } else {
        trials_for(secret[d as int]) + trials_from(secret, d + 1)
    }
}

/// The number of guesses that the stepper makes against `secret`: the
/// opening guess and the trials slot by slot.
pub open spec fn stepper_evals(secret: Seq<Color>) -> nat {
    1 + trials_from(secret, 0)
}

/// Repainting one slot of a guess moves its black pegs by that slot alone.
pub proof fn lemma_repaint_black(secret: Seq<Color>, guess: Seq<Color>, d: int, c: Color)
    requires
        secret.len() == 4,
        guess.len() == 4,
        0 <= d < 4,
    ensures
        black_pegs(secret, guess.update(d, c)) + (if guess[d] == secret[d] {
            1nat
        } else {
            0nat
        }) == black_pegs(secret, guess) + (if c == secret[d] {
            1nat
        } else {
            0nat
        }),
{
    reveal_with_fuel(black_among, 5);
}

/// The stepper never needs more than 21 guesses.
pub proof fn lemma_stepper_evals_bound(secret: Seq<Color>)
    ensures
        stepper_evals(secret) <= 21,
{
    reveal_with_fuel(trials_from, 5);
}

/// A player which solves each individual digit of the secret state on its own.
/// This player is a bit worse than the average human player, but a lot better
/// than the random player.
pub struct Stepper;

impl Stepper {
    /// Settles slot `d` of a guess that is right before `d` and blue from
    /// `d` on: tries the other colors there, in order, until one gains a
    /// black peg and is kept, or one loses a black peg and the blue pin stays.
    fn settle(oracle: &mut Oracle, guess: PinState, eval: Eval, d: usize) -> (res: (PinState, Eval))
        requires
            d < 4,
            guess@[d as int] == Color::Blue,
            eval.black() == black_pegs(old(oracle).secret(), guess@),
            old(oracle).evals() + 5 <= u32::MAX,
        ensures
            final(oracle).secret() == old(oracle).secret(),
            final(oracle).evals() == old(oracle).evals() + trials_for(
                old(oracle).secret()[d as int],
            ),
            res.0@ == guess@.update(d as int, old(oracle).secret()[d as int]),
            res.1.black() == black_pegs(old(oracle).secret(), res.0@),
    {
        let ghost secret = oracle.secret();
        let ghost start = oracle.evals();
        proof {
            guess.lemma_four_slots();
            oracle.lemma_secret_len();
        }
        let others = OTHER_COLORS;
        let mut k: usize = 0;
        while k < 5
            invariant
                k <= 5,
                d < 4,
                secret.len() == 4,
                guess@.len() == 4,
                guess@[d as int] == Color::Blue,
                others@ == OTHER_COLORS@,
                secret == old(oracle).secret(),
                start == old(oracle).evals(),
                oracle.secret() == secret,
                oracle.evals() == start + k,
                start + 5 <= u32::MAX,
                eval.black() == black_pegs(secret, guess@),
                k > 0 ==> secret[d as int] != Color::Blue,
                forall|j: int| 0 <= j < k ==> others@[j] != secret[d as int],
            decreases 5 - k,
        {
            let c = others[k];
            let new_guess = guess.with_pin(d, c);
            let new_eval = oracle.eval_guess(&new_guess);
            proof {
                lemma_repaint_black(secret, guess@, d as int, c);
            }
            if new_eval.num_black() > eval.num_black() {
                return (new_guess, new_eval);
            } else if new_eval.num_black() < eval.num_black() {
                assert(guess@ =~= guess@.update(d as int, secret[d as int]));
                return (guess, eval);
            }
            k += 1;
        }
        // Not reached: the slot's color is blue or one of the five others,
        // and each of them has ended the search above.
        assert(false) by {
            assert(forall|j: int| 0 <= j < 5 ==> others@[j] != secret[d as int]);
            assert(others@[0] == Color::Green && others@[1] == Color::Yellow);
            assert(others@[2] == Color::Magenta && others@[3] == Color::Red);
            assert(others@[4] == Color::Cyan);
        }
        (guess, eval)
    }
}

impl Player for Stepper {
    /// The answer is the secret, after as many guesses as its colors call
    /// for.
    open spec fn may_end(&self, secret: Seq<Color>, answer: Option<PinState>, evals: nat) -> bool {
        answer matches Some(found) && found@ == secret && evals == stepper_evals(secret)
    }

    /// Finds the secret slot by slot, with as many guesses as its colors
    /// call for: the opening guess and never more than five to a slot.
    fn play(&self, oracle: &mut Oracle) -> (res: Option<PinState>)
        ensures
            res matches Some(found) && found@ == old(oracle).secret(),
            final(oracle).evals() == old(oracle).evals() + stepper_evals(old(oracle).secret()),
            final(oracle).evals() <= old(oracle).evals() + 21,
    {
        let ghost secret = oracle.secret();
        let ghost start = oracle.evals();
        proof {
            oracle.lemma_secret_len();
            lemma_stepper_evals_bound(secret);
        }
        let mut guess = PinState::new([Color::Blue, Color::Blue, Color::Blue, Color::Blue]);
        let mut eval = oracle.eval_guess(&guess);
        proof {
            guess.lemma_four_slots();
        }

        let mut d: usize = 0;
        while d < 4
            invariant
                d <= 4,
                secret.len() == 4,
                guess@.len() == 4,
                oracle.secret() == secret,
                eval.black() == black_pegs(secret, guess@),
                forall|i: int| 0 <= i < d ==> guess@[i] == secret[i],
                forall|i: int| d <= i < 4 ==> guess@[i] == Color::Blue,
                oracle.evals() + trials_from(secret, d as nat) == start + stepper_evals(secret),
                oracle.evals() <= start + 1 + 5 * d,
                start + 21 <= u32::MAX,
            ensures
                guess@ == secret,
                oracle.secret() == secret,
                oracle.evals() == start + stepper_evals(secret),
            decreases 4 - d,
        {
            proof {
                lemma_four_black_iff_equal(secret, guess@);
            }
            if eval.is_success() {
                assert(blue_from(secret, d as int));
                break;
            }
            assert(!blue_from(secret, d as int)) by {
                if blue_from(secret, d as int) {
                    assert(guess@ =~= secret);
                }
            }
            let settled = Self::settle(oracle, guess, eval, d);
            guess = settled.0;
            eval = settled.1;
            d += 1;
        }

        Some(guess)
    }
}

} // verus!
