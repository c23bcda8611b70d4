use mastermind::gen::{Generator, Random as AnyRow};
use mastermind::players::human::{char_to_color, parse_guess, read_letters, Input, Turn};
use mastermind::players::{Human, Player, Random, Stepper};
use mastermind::Color::{Blue, Cyan, Green, Magenta, Red, Yellow};
use mastermind::{Oracle, PinState, ALL_COLORS};

#[test]
fn stepper_settles_slot_after_slot() {
    let secret = PinState::new([Blue, Green, Yellow, Red]);
    let mut o = Oracle::new(secret);
    let found = Stepper.play(&mut o);
    assert_eq!(found, Some(secret));
    // The opening guess, then 1, 1, 2 and 4 trials.
    assert_eq!(o.num_evals(), 9);
    assert!(o.num_evals() <= 21);
}

#[test]
fn stepper_stops_once_the_guess_is_right() {
    let secret = PinState::new([Blue, Blue, Blue, Blue]);
    let mut o = Oracle::new(secret);
    assert_eq!(Stepper.play(&mut o), Some(secret));
    assert_eq!(o.num_evals(), 1);

    let secret = PinState::new([Yellow, Blue, Blue, Blue]);
    let mut o = Oracle::new(secret);
    assert_eq!(Stepper.play(&mut o), Some(secret));
    assert_eq!(o.num_evals(), 3);
}

#[test]
fn stepper_needs_twenty_one_guesses_at_most() {
    let secret = PinState::new([Cyan, Cyan, Cyan, Cyan]);
    let mut o = Oracle::new(secret);
    assert_eq!(Stepper.play(&mut o), Some(secret));
    assert_eq!(o.num_evals(), 21);
}

#[test]
fn stepper_finds_every_secret() {
    for a in ALL_COLORS {
        for b in ALL_COLORS {
            for c in ALL_COLORS {
                for d in ALL_COLORS {
                    let secret = PinState::new([a, b, c, d]);
                    let mut o = Oracle::new(secret);
                    assert_eq!(Stepper.play(&mut o), Some(secret));
                    assert!(o.num_evals() >= 1 && o.num_evals() <= 21);
                }
            }
        }
    }
}

#[test]
fn stepper_plays_game_after_game() {
    let stepper = Stepper;
    for _ in 0..100 {
        let secret = AnyRow.gen();
        let mut o = Oracle::new(secret);
        assert_eq!(stepper.play(&mut o), Some(secret));
    }
}

#[test]
fn random_player_is_right_or_gives_up() {
    let secret = PinState::new([Magenta, Green, Green, Red]);
    let mut o = Oracle::new(secret);
    match Random.play(&mut o) {
        Some(found) => {
            assert_eq!(found, secret);
            assert!(o.num_evals() >= 1 && o.num_evals() <= 50_000);
        }
        None => assert_eq!(o.num_evals(), 50_000),
    }
}

#[test]
fn letters_stand_for_colors() {
    assert_eq!(char_to_color('b'), Some(Blue));
    assert_eq!(char_to_color('g'), Some(Green));
    assert_eq!(char_to_color('y'), Some(Yellow));
    assert_eq!(char_to_color('m'), Some(Magenta));
    assert_eq!(char_to_color('r'), Some(Red));
    assert_eq!(char_to_color('c'), Some(Cyan));
    assert_eq!(char_to_color('R'), Some(Red));
    assert_eq!(char_to_color('x'), None);
    assert_eq!(char_to_color(' '), None);
}

#[test]
fn lines_are_read_as_guesses() {
    let row = PinState::new([Blue, Green, Yellow, Red]);
    assert_eq!(parse_guess("bgyr"), Input::Guess(row));
    assert_eq!(parse_guess("bgyr\n"), Input::Guess(row));
    assert_eq!(parse_guess(" B g\tY r \r\n"), Input::Guess(row));
    assert_eq!(parse_guess("mmcc"), Input::Guess(PinState::new([Magenta, Magenta, Cyan, Cyan])));
}

#[test]
fn lines_that_are_no_guess_are_told_apart() {
    assert_eq!(parse_guess(""), Input::Blank);
    assert_eq!(parse_guess("\n"), Input::Blank);
    assert_eq!(parse_guess(" \t \u{2003}\n"), Input::Blank);
    assert_eq!(parse_guess("bgyx"), Input::InvalidChar);
    assert_eq!(parse_guess("1"), Input::InvalidChar);
    assert_eq!(parse_guess("bgyrx"), Input::InvalidChar);
    assert_eq!(parse_guess("bgy"), Input::WrongCount(3));
    assert_eq!(parse_guess("b g y r c\n"), Input::WrongCount(5));
    assert_eq!(parse_guess("c"), Input::WrongCount(1));
}

#[test]
fn a_human_turn_asks_the_oracle_about_guesses_only() {
    let secret = PinState::new([Blue, Green, Yellow, Red]);
    let mut o = Oracle::new(secret);
    let human = Human::new();

    assert_eq!(human.turn(&mut o, "\n"), Turn::Rejected(Input::Blank));
    assert_eq!(human.turn(&mut o, "what\n"), Turn::Rejected(Input::InvalidChar));
    assert_eq!(human.turn(&mut o, "bg\n"), Turn::Rejected(Input::WrongCount(2)));
    assert_eq!(o.num_evals(), 0);

    match human.turn(&mut o, "bygc\n") {
        Turn::Scored(guess, eval) => {
            assert_eq!(guess, PinState::new([Blue, Yellow, Green, Cyan]));
            assert_eq!((eval.num_black(), eval.num_white()), (1, 2));
        }
        other => panic!("{:?}", other),
    }
    assert_eq!(o.num_evals(), 1);

    assert_eq!(human.turn(&mut o, "BGYR\n"), Turn::Solved(secret));
    assert_eq!(o.num_evals(), 2);
}

#[test]
fn letters_are_read_as_guesses() {
    assert_eq!(
        read_letters(&vec!['b', 'g', 'y', 'r']),
        Input::Guess(PinState::new([Blue, Green, Yellow, Red]))
    );
    assert_eq!(
        read_letters(&vec!['C', 'm', 'C', 'm']),
        Input::Guess(PinState::new([Cyan, Magenta, Cyan, Magenta]))
    );
    assert_eq!(read_letters(&vec![]), Input::Blank);
    assert_eq!(read_letters(&vec!['b', 'x']), Input::InvalidChar);
    // White space is no letter of a color once it is among the letters.
    assert_eq!(read_letters(&vec!['b', ' ', 'g', 'y', 'r']), Input::InvalidChar);
    assert_eq!(read_letters(&vec!['r']), Input::WrongCount(1));
    assert_eq!(read_letters(&vec!['r', 'g', 'b', 'y', 'm', 'c']), Input::WrongCount(6));
}
