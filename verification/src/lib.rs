//! A code-breaking game: a secret row of four coloured pins is to be found
//! by guessing, and every guess is answered with black and white pegs.

use vstd::prelude::*;

mod chance;
pub mod game;
pub mod gen;
pub mod oracle;
pub mod players;

pub use oracle::{Eval, Oracle};

verus! {

/// Colors of the main pins.
#[derive(Debug, Clone, Copy, PartialEq, Eq, Structural)]
pub enum Color {
    Blue,
    Green,
    Yellow,
    Magenta,
    Red,
    Cyan,
}

/// An array of all possible colors.
pub const ALL_COLORS: [Color; 6] = [
    Color::Blue,
    Color::Green,
    Color::Yellow,
    Color::Magenta,
    Color::Red,
    Color::Cyan,
];

/// The number of different colors among `pins`.
pub open spec fn num_colors(pins: Seq<Color>) -> nat {
    pins.to_set().len()
}

/// How often the color `c` occurs among `pins`.
pub open spec fn occurrences(pins: Seq<Color>, c: Color) -> nat {
    pins.to_multiset().count(c)
}

/// Four colored pins.
///
/// This is the type of the secret solution and of the guesses made by players.
#[derive(Debug, Clone, Copy, Eq)]
pub struct PinState {
    pins: [Color; 4],
}

impl PartialEq for PinState {
    fn eq(&self, other: &Self) -> (res: bool) {
        let res = self.pins[0] == other.pins[0] && self.pins[1] == other.pins[1] && self.pins[2]
            == other.pins[2] && self.pins[3] == other.pins[3];
        proof {
            if res {
                assert(self@ =~= other@);
            }
        }
        res
    }
}

impl vstd::std_specs::cmp::PartialEqSpecImpl for PinState {
    open spec fn obeys_eq_spec() -> bool {
        true
    }

    open spec fn eq_spec(&self, other: &Self) -> bool {
        self@ == other@
    }
}

impl View for PinState {
    type V = Seq<Color>;

    closed spec fn view(&self) -> Seq<Color> {
        self.pins@
    }
}

impl PinState {
    /// A row has four slots.
    pub proof fn lemma_four_slots(self)
        ensures
            self@.len() == 4,
    {
    }

    /// Rows that hold the same colors slot by slot are the same row.
    pub proof fn lemma_same_pins(self, other: PinState)
        requires
            self@ == other@,
        ensures
            self == other,
    {
        assert(self.pins =~= other.pins);
    }

    /// The row that holds `pins`, slot by slot.
    pub fn new(pins: [Color; 4]) -> (res: Self)
        ensures
            res@ == pins@,
    {
        Self { pins }
    }

    /// The color in slot `i`.
    pub fn pin(&self, i: usize) -> (res: Color)
        requires
            i < 4,
        ensures
            res == self@[i as int],
    {
        self.pins[i]
    }

    /// The row with slot `i` repainted in `c`, the other slots as they were.
    pub fn with_pin(&self, i: usize, c: Color) -> (res: Self)
        requires
            i < 4,
        ensures
            res@ == self@.update(i as int, c),
    {
        let mut pins = self.pins;
        pins[i] = c;
        Self { pins }
    }
}

} // verus!
