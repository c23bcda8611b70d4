use vstd::prelude::*;
use crate::gen::random_pins;
use crate::players::{Player, MAX_EVALS};
use crate::{Color, Oracle, PinState};

verus! {

/// A player which makes completely random guesses. As to be expected, its
/// performance is pretty poor.
///
/// If no solution is found after 50.000 attempts, this player gives up.
pub struct Random;

impl Player for Random {
    /// An answer is the secret and comes with the guess that found it; the
    /// player gives up after all its attempts, and not before.
    open spec fn may_end(&self, secret: Seq<Color>, answer: Option<PinState>, evals: nat) -> bool {
        match answer {
            Some(found) => found@ == secret && 1 <= evals <= MAX_EVALS,
            None => evals == MAX_EVALS,
        }
    }

    /// Guesses at random until a guess is the secret. An answer is always
    /// right; the player gives up once all its attempts have failed.
    fn play(&self, oracle: &mut Oracle) -> (res: Option<PinState>)
        ensures
            res matches Some(found) ==> found@ == old(oracle).secret(),
            final(oracle).evals() <= old(oracle).evals() + MAX_EVALS,
            res is None ==> final(oracle).evals() == old(oracle).evals() + MAX_EVALS,
    {
        let ghost start = oracle.evals();
        for n in 0..MAX_EVALS
            invariant
                oracle.secret() == old(oracle).secret(),
                oracle.evals() == start + n,
                start == old(oracle).evals(),
                start + MAX_EVALS <= u32::MAX,
        {
            let guess = random_pins();
            if oracle.eval_guess(&guess).is_success() {
                return Some(guess);
            }
        }
        None
    }
}

} // verus!
