//! Generators of secret pin states: one fixed row, and random rows with a
//! set number of different colors.

use vstd::prelude::*;
use crate::chance::{pick_one, random_below, random_bool, shuffle};
use crate::{num_colors, occurrences, Color, PinState, ALL_COLORS};

verus! {

/// Represents types able to generate secret pin states.
pub trait Generator {
    /// Whether this generator can hand out the row `pins`. A generator that
    /// says nothing of its rows can hand out any.
    open spec fn yields(&self, pins: Seq<Color>) -> bool {
        true
    }

    /// A fresh secret.
    fn gen(&self) -> (res: PinState)
        ensures
            self.yields(res@),
    ;
}

/// Just one color occurs twice among `pins`, and none more often.
pub open spec fn one_pair(pins: Seq<Color>) -> bool {
    exists|c: Color|
        #![trigger occurrences(pins, c)]
        occurrences(pins, c) == 2 && forall|d: Color|
            d != c ==> #[trigger] occurrences(pins, d) <= 1
}

/// The colors of a row of four are those of its four slots.
pub proof fn lemma_colors_of_four(pins: Seq<Color>)
    requires
        pins.len() == 4,
    ensures
        pins.to_set() == set![pins[0], pins[1], pins[2], pins[3]],
{
    let s = set![pins[0], pins[1], pins[2], pins[3]];
    assert forall|c: Color| pins.to_set().contains(c) <==> s.contains(c) by {
        if s.contains(c) {
            assert(pins[0] == c || pins[1] == c || pins[2] == c || pins[3] == c);
            assert(pins.contains(c));
        }
    }
    assert(pins.to_set() =~= s);
}

/// Elisa's pin state of choice. Always the same.
pub struct Elisa;

impl Generator for Elisa {
    open spec fn yields(&self, pins: Seq<Color>) -> bool {
        pins == seq![Color::Cyan, Color::Green, Color::Yellow, Color::Red]
    }

    /// Cyan, green, yellow, red.
    fn gen(&self) -> (res: PinState)
        ensures
            res@ == seq![Color::Cyan, Color::Green, Color::Yellow, Color::Red],
    {
        let res = PinState::new([Color::Cyan, Color::Green, Color::Yellow, Color::Red]);
        assert(res@ =~= seq![Color::Cyan, Color::Green, Color::Yellow, Color::Red]);
        res
    }
}

/// The color with the given number in `ALL_COLORS`.
pub fn color_at(index: usize) -> (res: Color)
    requires
        index < 6,
    ensures
        res == ALL_COLORS@[index as int],
{
    let all = ALL_COLORS;
    all[index]
}

/// One of the six colors, drawn at random.
pub(crate) fn random_color() -> (res: Color)
    ensures
        ALL_COLORS@.contains(res),
{
    color_at(random_below(6))
}

/// Generates pin states consisting of only one random color.
pub struct Random1;

impl Generator for Random1 {
    open spec fn yields(&self, pins: Seq<Color>) -> bool {
        num_colors(pins) == 1
    }

    /// Four pins of one color, whichever is drawn.
    fn gen(&self) -> (res: PinState)
        ensures
            num_colors(res@) == 1,
    {
        let c: Color = random_color();
        let res = PinState::new([c, c, c, c]);
        proof {
            res.lemma_four_slots();
            lemma_colors_of_four(res@);
        }
        res
    }
}

/// A shuffled copy of the six colors holds each of them once.
proof fn lemma_shuffled_colors_differ(shuffled: Seq<Color>)
    requires
        shuffled.to_multiset() == ALL_COLORS@.to_multiset(),
    ensures
        shuffled.len() == 6,
        shuffled.no_duplicates(),
{
    let all = ALL_COLORS@;
    assert(all.len() == 6);
    assert(all.no_duplicates());
    all.to_multiset_ensures();
    shuffled.to_multiset_ensures();
    all.lemma_multiset_has_no_duplicates();
    shuffled.lemma_multiset_has_no_duplicates_conv();
}

/// Whether every one of `pins` is `c`.
fn all_are(pins: &[Color; 3], c: Color) -> (res: bool)
    ensures
        res == (pins@[0] == c && pins@[1] == c && pins@[2] == c),
{
    pins[0] == c && pins[1] == c && pins[2] == c
}

/// Generates pin states with two different colors.
pub struct Random2;

impl Random2 {
    /// The pin that a coin picks: `c1` for heads, `c2` for tails.
    pub fn pick(coin: bool, c1: Color, c2: Color) -> (res: Color)
        ensures
            res == if coin {
                c1
            } else {
                c2
            },
    {
        if coin {
            c1
        } else {
            c2
        }
    }

    /// The fourth pin, where the first three leave no choice: the other
    /// color if they all show one of `c1` and `c2`, and nothing if they
    /// show both.
    pub open spec fn forced(c1: Color, c2: Color, first_three: Seq<Color>) -> Option<Color> {
        if first_three[0] == c1 && first_three[1] == c1 && first_three[2] == c1 {
            Some(c2)
        } else if first_three[0] == c2 && first_three[1] == c2 && first_three[2] == c2 {
            Some(c1)
        } else {
            None
        }
    }

    /// The fourth pin that keeps a row of `c1` and `c2` from showing one
    /// color only, where the first three pins call for one.
    pub fn forced_last(c1: Color, c2: Color, first_three: &[Color; 3]) -> (res: Option<Color>)
        ensures
            res == Self::forced(c1, c2, first_three@),
    {
        if all_are(first_three, c1) {
            Some(c2)
        } else if all_are(first_three, c2) {
            Some(c1)
        } else {
            None
        }
    }
}

impl Generator for Random2 {
    open spec fn yields(&self, pins: Seq<Color>) -> bool {
        num_colors(pins) == 2
    }

    /// A row of two colors, whatever is drawn: of the six colors shuffled,
    /// the first two; each of the first three pins one of them as a coin
    /// falls; and the last pin too, unless the first three are alike and
    /// call for the other color.
    fn gen(&self) -> (res: PinState)
        ensures
            num_colors(res@) == 2,
    {
        let mut v = ALL_COLORS;
        shuffle(&mut v);
        proof {
            lemma_shuffled_colors_differ(v@);
        }
        let c1 = v[0];
        let c2 = v[1];

        let first_three = [
            Self::pick(random_bool(), c1, c2),
            Self::pick(random_bool(), c1, c2),
            Self::pick(random_bool(), c1, c2),
        ];
        let last = match Self::forced_last(c1, c2, &first_three) {
            Some(c) => c,
            None => Self::pick(random_bool(), c1, c2),
        };

        let res = PinState::new([first_three[0], first_three[1], first_three[2], last]);
        proof {
            res.lemma_four_slots();
            lemma_colors_of_four(res@);
            assert(res@.to_set() =~= set![c1, c2]);
        }
        res
    }
}

/// Generates pin states with three random colors.
pub struct Random3;

impl Random3 {
    /// Three different colors and a second copy of one of them make three
    /// colors with one pair, in whatever order they are laid out.
    pub proof fn lemma_three_and_one(
        c1: Color,
        c2: Color,
        c3: Color,
        doubled: Color,
        pins: Seq<Color>,
    )
        requires
            c1 != c2,
            c1 != c3,
            c2 != c3,
            doubled == c1 || doubled == c2 || doubled == c3,
            pins.to_multiset() == seq![c1, c2, c3, doubled].to_multiset(),
        ensures
            pins.len() == 4,
            num_colors(pins) == 3,
            one_pair(pins),
    {
        let laid = seq![c1, c2, c3, doubled];
        let e = Seq::<Color>::empty();
        assert(laid =~= e.push(c1).push(c2).push(c3).push(doubled));
        e.to_multiset_ensures();
        e.push(c1).to_multiset_ensures();
        e.push(c1).push(c2).to_multiset_ensures();
        e.push(c1).push(c2).push(c3).to_multiset_ensures();
        laid.to_multiset_ensures();
        pins.to_multiset_ensures();
        assert forall|c: Color| pins.to_set().contains(c) <==> set![c1, c2, c3].contains(c) by {
            assert(pins.contains(c) <==> pins.to_multiset().count(c) > 0);
        }
        assert(pins.to_set() =~= set![c1, c2, c3]);
        assert(occurrences(pins, doubled) == 2);
        assert forall|d: Color| d != doubled implies #[trigger] occurrences(pins, d) <= 1 by {}
    }
}

impl Generator for Random3 {
    open spec fn yields(&self, pins: Seq<Color>) -> bool {
        num_colors(pins) == 3 && one_pair(pins)
    }

    /// A row of three colors, one of them twice, whatever is drawn: of the
    /// six colors shuffled, the first three and a second copy of one of
    /// them, shuffled again.
    fn gen(&self) -> (res: PinState)
        ensures
            num_colors(res@) == 3,
            one_pair(res@),
    {
        let mut v = ALL_COLORS;
        shuffle(&mut v);
        proof {
            lemma_shuffled_colors_differ(v@);
        }
        let c1 = v[0];
        let c2 = v[1];
        let c3 = v[2];

        let three = [c1, c2, c3];
        let picked = pick_one(&three);
        assert(three@.len() == 3);
        let doubled = *picked.unwrap();

        let mut arr = [c1, c2, c3, doubled];
        assert(arr@ =~= seq![c1, c2, c3, doubled]);
        shuffle(&mut arr);

        let res = PinState::new(arr);
        proof {
            Random3::lemma_three_and_one(c1, c2, c3, doubled, res@);
        }
        res
    }
}

/// Generates completely random pin states.
pub struct Random;

impl Generator for Random {
    /// Any row at all: each pin is drawn from all six colors.
    fn gen(&self) -> (res: PinState) {
        random_pins()
    }
}

/// A row whose four pins are drawn one by one, each from all six colors.
pub(crate) fn random_pins() -> (res: PinState) {
    PinState::new([random_color(), random_color(), random_color(), random_color()])
}

} // verus!
