//! Players: whatever can take on an oracle and name a secret.

use vstd::prelude::*;
use crate::{Color, Oracle, PinState};

pub mod human;
pub mod random;
pub mod stepper;

pub use self::human::Human;
pub use self::random::Random;
pub use self::stepper::Stepper;

verus! {

/// The number of evaluations that every oracle handed to a player has
/// room for. No player of this library asks for more in one game.
pub const MAX_EVALS: u32 = 50_000;

/// Represents something that can solve the game.
pub trait Player {
    /// Whether a game of this player for the secret `secret` can end with
    /// the answer `answer` after `evals` evaluations. A player that says
    /// nothing of its games leaves every ending open.
    open spec fn may_end(&self, secret: Seq<Color>, answer: Option<PinState>, evals: nat) -> bool {
        true
    }

    /// Plays one complete game with a given oracle.
    ///
    /// The oracle knows the secret pin state to be guessed. The player has
    /// to repeatedly guess pin states and ask the oracle about the guess in
    /// order to obtain information about the secret. Once the player thinks
    /// it has found the solution, it returns the solution. The player can
    /// also just give up by returning `None`.
    ///
    /// The player itself stays as it is: the same player instance might be
    /// used for multiple games. The oracle keeps its secret and counts the
    /// player's questions. Its counter has room for `MAX_EVALS` of them; a
    /// player that may ask more often has to watch the counter itself.
    fn play(&self, oracle: &mut Oracle) -> (res: Option<PinState>)
        requires
            old(oracle).evals() + MAX_EVALS <= u32::MAX,
        ensures
            final(oracle).secret() == old(oracle).secret(),
            old(oracle).evals() <= final(oracle).evals(),
            self.may_end(
                old(oracle).secret(),
                res,
                (final(oracle).evals() - old(oracle).evals()) as nat,
            ),
    ;
}

} // verus!
