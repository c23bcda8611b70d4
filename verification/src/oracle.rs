//! The oracle keeps the secret row, answers guesses with black and white
//! pegs, and counts how often it was asked.

use vstd::prelude::*;
use vstd::multiset::Multiset;
use crate::{occurrences, Color, PinState};

verus! {

/// The secret colors that are still unclaimed when slot `i` of the guess is
/// looked at: every color of the secret, less one occurrence for each
/// earlier slot of the guess whose color was still to be had.
pub open spec fn pool(secret: Seq<Color>, guess: Seq<Color>, i: nat) -> Multiset<Color>
    decreases i,
{
    if i == 0 {
        secret.to_multiset()
    } else {
        pool(secret, guess, (i - 1) as nat).remove(guess[i - 1])
    }
}

/// Slot `i` earns a black peg: the guess has the secret's color there.
pub open spec fn is_black(secret: Seq<Color>, guess: Seq<Color>, i: int) -> bool {
    guess[i] == secret[i]
}

/// Slot `i` earns a white peg: the guess misses the secret there, but its
/// color is among those still unclaimed.
pub open spec fn is_white(secret: Seq<Color>, guess: Seq<Color>, i: int) -> bool {
    guess[i] != secret[i] && pool(secret, guess, i as nat).contains(guess[i])
}

/// Number of black pegs earned by the first `n` slots.
pub open spec fn black_among(secret: Seq<Color>, guess: Seq<Color>, n: nat) -> nat
    decreases n,
{
    if n == 0 {
        0
    } else {
        black_among(secret, guess, (n - 1) as nat) + if is_black(secret, guess, n - 1) {
            1nat
        } else {
            0nat
        }
    }
}

/// Number of white pegs earned by the first `n` slots.
pub open spec fn white_among(secret: Seq<Color>, guess: Seq<Color>, n: nat) -> nat
    decreases n,
{
    if n == 0 {
        0
    } else {
        white_among(secret, guess, (n - 1) as nat) + if is_white(secret, guess, n - 1) {
            1nat
        } else {
            0nat
        }
    }
}

/// Black pegs of a whole guess.
pub open spec fn black_pegs(secret: Seq<Color>, guess: Seq<Color>) -> nat {
    black_among(secret, guess, 4)
}

/// White pegs of a whole guess.
pub open spec fn white_pegs(secret: Seq<Color>, guess: Seq<Color>) -> nat {
    white_among(secret, guess, 4)
}

/// When slot `i` of the guess is looked at, a color is still unclaimed as
/// often as the secret holds it, less once for every earlier slot of the
/// guess that shows it, and never less than not at all.
pub proof fn lemma_pool_count(secret: Seq<Color>, guess: Seq<Color>, i: nat, c: Color)
    requires
        i <= guess.len(),
    ensures
        pool(secret, guess, i).count(c) == if occurrences(secret, c) >= occurrences(
            guess.subrange(0, i as int),
            c,
        ) {
            occurrences(secret, c) - occurrences(guess.subrange(0, i as int), c)
        } else {
            0
        },
    decreases i,
{
    if i == 0 {
        assert(guess.subrange(0, 0) =~= Seq::<Color>::empty());
        Seq::<Color>::empty().to_multiset_ensures();
    } else {
        lemma_pool_count(secret, guess, (i - 1) as nat, c);
        let earlier = guess.subrange(0, i - 1);
        assert(guess.subrange(0, i as int) =~= earlier.push(guess[i - 1]));
        earlier.to_multiset_ensures();
    }
}

/// A slot earns a white peg exactly when the guess misses the secret there
/// and the secret holds the slot's color more often than the earlier slots
/// of the guess show it.
pub proof fn lemma_white_by_counts(secret: Seq<Color>, guess: Seq<Color>, i: int)
    requires
        0 <= i < guess.len(),
    ensures
        is_white(secret, guess, i) <==> guess[i] != secret[i] && occurrences(
            guess.subrange(0, i),
            guess[i],
        ) < occurrences(secret, guess[i]),
{
    lemma_pool_count(secret, guess, i as nat, guess[i]);
}

/// No slot earns both a black and a white peg, so the first `n` slots
/// earn at most `n` pegs between them.
pub proof fn lemma_pegs_among(secret: Seq<Color>, guess: Seq<Color>, n: nat)
    ensures
        black_among(secret, guess, n) + white_among(secret, guess, n) <= n,
    decreases n,
{
    if n > 0 {
        lemma_pegs_among(secret, guess, (n - 1) as nat);
    }
}

/// A guess earns at most four pegs.
pub proof fn lemma_at_most_four_pegs(secret: Seq<Color>, guess: Seq<Color>)
    ensures
        black_pegs(secret, guess) + white_pegs(secret, guess) <= 4,
{
    lemma_pegs_among(secret, guess, 4);
}

/// The first `n` slots earn `n` black pegs exactly when the guess agrees
/// with the secret in all of them.
pub proof fn lemma_black_among(secret: Seq<Color>, guess: Seq<Color>, n: nat)
    ensures
        black_among(secret, guess, n) <= n,
        black_among(secret, guess, n) == n <==> forall|i: int|
            0 <= i < n ==> guess[i] == secret[i],
    decreases n,
{
    if n > 0 {
        lemma_black_among(secret, guess, (n - 1) as nat);
    }
}

/// A guess earns four black pegs exactly when it is the secret.
pub proof fn lemma_four_black_iff_equal(secret: Seq<Color>, guess: Seq<Color>)
    requires
        secret.len() == 4,
        guess.len() == 4,
    ensures
        black_pegs(secret, guess) == 4 <==> guess == secret,
{
    lemma_black_among(secret, guess, 4);
    if black_pegs(secret, guess) == 4 {
        assert(guess =~= secret);
    }
}

/// A perfect guess earns no white peg.
pub proof fn lemma_secret_earns_no_white(secret: Seq<Color>)
    ensures
        white_pegs(secret, secret) == 0,
{
    reveal_with_fuel(white_among, 5);
}

/// An evaluation of a guess of the secret pin state.
///
/// This evaluation can only be obtained through the oracle.
#[derive(Debug, Clone, Copy, PartialEq, Eq, Structural)]
pub struct Eval {
    num_white: u8,
    num_black: u8,
}

impl Eval {
    #[verifier::type_invariant]
    spec fn pegs_fit(self) -> bool {
        self.num_black + self.num_white <= 4
    }

    /// The number of black pegs, as contracts speak of it.
    pub closed spec fn black(self) -> nat {
        self.num_black as nat
    }

    /// The number of white pegs, as contracts speak of it.
    pub closed spec fn white(self) -> nat {
        self.num_white as nat
    }

    /// Returns `true` iff the guess was completely correct.
    pub fn is_success(&self) -> (res: bool)
        ensures
            res == (self.black() == 4),
    {
        self.num_black == 4
    }

    /// Returns the number of black pins. Each black pin represents a pin in
    /// the guess that has the correct color and is at the correct position.
    pub fn num_black(&self) -> (res: u8)
        ensures
            res == self.black(),
            self.black() + self.white() <= 4,
    {
        proof {
            use_type_invariant(self);
        }
        self.num_black
    }

    /// Returns the number of white pins. Each white pin represents a pin in
    /// the guess that has the correct color, but is in an incorrect position.
    pub fn num_white(&self) -> (res: u8)
        ensures
            res == self.white(),
            self.black() + self.white() <= 4,
    {
        proof {
            use_type_invariant(self);
        }
        self.num_white
    }

    /// Two evaluations with the same pegs are the same evaluation.
    pub proof fn lemma_same_pegs(self, other: Eval)
        requires
            self.black() == other.black(),
            self.white() == other.white(),
        ensures
            self == other,
    {
    }
}

/// This structure is given to the player as the only way to obtain information
/// about the secret pin state.
///
/// It internally counts the number of times it was asked about an evaluation
/// of a guess. This is used as a metric to rate different players.
#[derive(Debug)]
pub struct Oracle {
    correct: PinState,
    num_evals: u32,
}

impl Clone for Oracle {
    fn clone(&self) -> (res: Self)
        ensures
            res == *self,
    {
        Oracle { correct: self.correct, num_evals: self.num_evals }
    }
}

/// The first slot of `v` that holds `c`, if any does.
fn position(v: &Vec<Color>, c: Color) -> (res: Option<usize>)
    ensures
        match res {
            Some(p) => p < v@.len() && v@[p as int] == c && forall|k: int|
                0 <= k < p ==> v@[k] != c,
            None => !v@.contains(c),
        },
{
    let mut j: usize = 0;
    while j < v.len()
        invariant
            j <= v@.len(),
            forall|k: int| 0 <= k < j ==> v@[k] != c,
        decreases v@.len() - j,
    {
        if v[j] == c {
            return Some(j);
        }
        j += 1;
    }
    None
}

impl Oracle {
    /// The secret row, which only contracts can see.
    pub closed spec fn secret(&self) -> Seq<Color> {
        self.correct@
    }

    /// The number of guesses evaluated so far, as contracts speak of it.
    pub closed spec fn evals(&self) -> nat {
        self.num_evals as nat
    }

    /// The secret has four slots.
    pub proof fn lemma_secret_len(self)
        ensures
            self.secret().len() == 4,
    {
        self.correct.lemma_four_slots();
    }

    /// What one evaluation does: the oracle `before` is asked about `guess`,
    /// answers `eval`, and is the oracle `after` from then on.
    pub open spec fn asked(before: Oracle, guess: Seq<Color>, eval: Eval, after: Oracle) -> bool {
        &&& after.secret() == before.secret()
        &&& after.evals() == before.evals() + 1
        &&& eval.black() == black_pegs(before.secret(), guess)
        &&& eval.white() == white_pegs(before.secret(), guess)
    }

    /// Creates a new oracle which knows about the given secret pin state.
    pub fn new(correct: PinState) -> (res: Self)
        ensures
            res.secret() == correct@,
            res.evals() == 0,
    {
        Self { correct, num_evals: 0 }
    }

    /// Evaluates the given guess.
    pub fn eval_guess(&mut self, guess: &PinState) -> (res: Eval)
        requires
            old(self).evals() < u32::MAX,
        ensures
            Self::asked(*old(self), guess@, res, *final(self)),
            res.black() + res.white() <= 4,
            res.black() == 4 <==> guess@ == old(self).secret(),
    {
        proof {
            guess.lemma_four_slots();
            self.correct.lemma_four_slots();
            lemma_four_black_iff_equal(self.correct@, guess@);
        }
        self.num_evals = self.num_evals + 1;

        let mut num_black: u8 = 0;
        let mut num_white: u8 = 0;
        let mut remaining: Vec<Color> = Vec::new();
        for k in 0..4usize
            invariant
                remaining@ == self.correct@.subrange(0, k as int),
        {
            remaining.push(self.correct.pin(k));
        }
        assert(remaining@ == self.correct@);

        for i in 0..4usize
            invariant
                remaining@.to_multiset() == pool(self.correct@, guess@, i as nat),
                num_black == black_among(self.correct@, guess@, i as nat),
                num_white == white_among(self.correct@, guess@, i as nat),
                num_black + num_white <= i,
        {
            let curr = guess.pin(i);
            let found = position(&remaining, curr);
            proof {
                remaining@.to_multiset_ensures();
            }
            if curr == self.correct.pin(i) {
                num_black += 1;
            } else if found.is_some() {
                num_white += 1;
            }
            if let Some(pos) = found {
                remaining.remove(pos);
            }
        }

        Eval { num_black, num_white }
    }

    /// Asking twice about the same guess gives the same evaluation both
    /// times, and each question raises the count by one.
    pub proof fn lemma_asked_twice(
        before: Oracle,
        between: Oracle,
        after: Oracle,
        guess: Seq<Color>,
        first: Eval,
        second: Eval,
    )
        requires
            Self::asked(before, guess, first, between),
            Self::asked(between, guess, second, after),
        ensures
            first == second,
            between.evals() == before.evals() + 1,
            after.evals() == between.evals() + 1,
    {
        first.lemma_same_pegs(second);
    }

    /// Returns the number of times `eval_guess` was called since creation of
    /// this oracle.
    pub fn num_evals(&self) -> (res: u32)
        ensures
            res == self.evals(),
    {
        self.num_evals
    }
}

} // verus!
