use vstd::prelude::*;
use vstd::string::StrSliceExecFns;
use crate::{Color, Eval, Oracle, PinState};

verus! {

/// Whether `c` is white space, as `char::is_whitespace` of the standard
/// library tells it (the Unicode property `White_Space`).
pub uninterp spec fn whitespace(c: char) -> bool;

/// `char::is_whitespace`: the answer is a matter of the character alone,
/// and contracts know it as `whitespace`.
#[verifier::external_body]
fn is_whitespace(c: char) -> (res: bool)
    ensures
        res == whitespace(c),
{
    c.is_whitespace()
}

/// The color that a letter stands for, in either case.
pub open spec fn letter_color(c: char) -> Option<Color> {
    if c == 'b' || c == 'B' {
        Some(Color::Blue)
    } else if c == 'g' || c == 'G' {
        Some(Color::Green)
    } else if c == 'y' || c == 'Y' {
        Some(Color::Yellow)
    } else if c == 'm' || c == 'M' {
        Some(Color::Magenta)
    } else if c == 'r' || c == 'R' {
        Some(Color::Red)
    } else if c == 'c' || c == 'C' {
        Some(Color::Cyan)
    } else {
        None
    }
}

/// The characters of a line that are not white space, in their order.
pub open spec fn letters(line: Seq<char>) -> Seq<char> {
    line.filter(|c: char| !whitespace(c))
}

/// Every one of `letters` stands for a color.
pub open spec fn all_colors(letters: Seq<char>) -> bool {
    forall|i: int| 0 <= i < letters.len() ==> (#[trigger] letter_color(letters[i])) is Some
}

/// What a line of input amounts to.
#[derive(Debug, Clone, Copy, PartialEq, Eq)]
pub enum Input {
    /// Nothing but white space.
    Blank,
    /// A character that is neither white space nor the letter of a color.
    InvalidChar,
    /// Letters of colors, but not four of them: as many as are given here.
    WrongCount(usize),
    /// Four letters of colors: the row that they spell.
    Guess(PinState),
}

/// The color that the letter `c` stands for, if it stands for one.
pub fn char_to_color(c: char) -> (res: Option<Color>)
    ensures
        res == letter_color(c),
{
    match c {
        'b' | 'B' => Some(Color::Blue),
        'g' | 'G' => Some(Color::Green),
        'y' | 'Y' => Some(Color::Yellow),
        'm' | 'M' => Some(Color::Magenta),
        'r' | 'R' => Some(Color::Red),
        'c' | 'C' => Some(Color::Cyan),
        _ => None,
    }
}

/// Tells what the letters of a line amount to: `input` is the one reading
/// of them.
pub open spec fn letters_read_as(letters: Seq<char>, input: Input) -> bool {
    match input {
        Input::Blank => letters.len() == 0,
        Input::InvalidChar => letters.len() > 0 && !all_colors(letters),
        Input::WrongCount(given) => {
            &&& all_colors(letters)
            &&& given == letters.len()
            &&& given != 0
            &&& given != 4
        },
        Input::Guess(pins) => {
            &&& all_colors(letters)
            &&& letters.len() == 4
            &&& forall|i: int| 0 <= i < 4 ==> Some(#[trigger] pins@[i]) == letter_color(letters[i])
        },
    }
}

/// Tells what the line `line` amounts to: what its letters do, wherever
/// the white space between them stands.
pub open spec fn reads_as(line: Seq<char>, input: Input) -> bool {
    letters_read_as(letters(line), input)
}

/// Reads the letters of a line, with the white space taken out, as a
/// guess: four letters of colors, in either case.
pub fn read_letters(input: &Vec<char>) -> (res: Input)
    ensures
        letters_read_as(input@, res),
{
    if input.len() == 0 {
        return Input::Blank;
    }
    let mut colors: Vec<Color> = Vec::new();
    let mut j: usize = 0;
    while j < input.len()
        invariant
            j <= input@.len(),
            input@.len() > 0,
            colors@.len() == j,
            forall|k: int| 0 <= k < j ==> Some(#[trigger] colors@[k]) == letter_color(input@[k]),
        decreases input@.len() - j,
    {
        match char_to_color(input[j]) {
            Some(color) => colors.push(color),
            None => {
                assert(letter_color(input@[j as int]) is None);
                return Input::InvalidChar;
            },
        }
        j += 1;
    }
    assert(all_colors(input@)) by {
        assert forall|k: int| 0 <= k < input@.len() implies (#[trigger] letter_color(
            input@[k],
        )) is Some by {
            assert(Some(colors@[k]) == letter_color(input@[k]));
        }
    }

    if input.len() != 4 {
        return Input::WrongCount(input.len());
    }
    Input::Guess(PinState::new([colors[0], colors[1], colors[2], colors[3]]))
}

/// Reads a line as a guess: four letters of colors, in either case, with
/// white space wherever one likes.
pub fn parse_guess(line: &str) -> (res: Input)
    ensures
        reads_as(line@, res),
{
    let ghost keep = |c: char| !whitespace(c);
    let len = line.unicode_len();
    let mut input: Vec<char> = Vec::new();
    let mut i: usize = 0;
    while i < len
        invariant
            i <= len,
            len == line@.len(),
            keep == (|c: char| !whitespace(c)),
            input@ == line@.subrange(0, i as int).filter(keep),
            input@.len() <= i,
        decreases len - i,
    {
        let c = line.get_char(i);
        proof {
            reveal(Seq::filter);
            assert(line@.subrange(0, i + 1).drop_last() =~= line@.subrange(0, i as int));
        }
        if !is_whitespace(c) {
            input.push(c);
        }
        i += 1;
    }
    assert(line@.subrange(0, len as int) =~= line@);
    assert(input@ == letters(line@));

    read_letters(&input)
}

/// What a human player's line of input leads to.
#[derive(Debug, Clone, Copy, PartialEq, Eq)]
pub enum Turn {
    /// The line was no guess; the oracle was not asked.
    Rejected(Input),
    /// The guess was evaluated and is not yet the secret.
    Scored(PinState, Eval),
    /// The guess is the secret.
    Solved(PinState),
}

/// A player that types its guesses.
pub struct Human;

impl Human {
    pub fn new() -> (res: Self) {
        Human
    }

    /// Takes one line from the player: what is no guess is rejected as
    /// what it is, a guess goes to the oracle, and the game is over once
    /// the oracle answers with four black pegs. Only for a guess does the
    /// oracle's counter need room.
    pub fn turn(&self, oracle: &mut Oracle, line: &str) -> (res: Turn)
        requires
            letters(line@).len() == 4 && all_colors(letters(line@)) ==> old(oracle).evals()
                < u32::MAX,
        ensures
            final(oracle).secret() == old(oracle).secret(),
            match res {
                Turn::Rejected(input) => {
                    &&& reads_as(line@, input)
                    &&& !(input is Guess)
                    &&& *final(oracle) == *old(oracle)
                },
                Turn::Scored(guess, eval) => {
                    &&& reads_as(line@, Input::Guess(guess))
                    &&& guess@ != old(oracle).secret()
                    &&& Oracle::asked(*old(oracle), guess@, eval, *final(oracle))
                },
                Turn::Solved(guess) => {
                    &&& reads_as(line@, Input::Guess(guess))
                    &&& guess@ == old(oracle).secret()
                    &&& final(oracle).evals() == old(oracle).evals() + 1
                },
            },
    {
        match parse_guess(line) {
            Input::Guess(guess) => {
                let eval = oracle.eval_guess(&guess);
                if eval.is_success() {
                    Turn::Solved(guess)
                } else {
                    Turn::Scored(guess, eval)
                }
            },
            input => Turn::Rejected(input),
        }
    }
}

} // verus!
