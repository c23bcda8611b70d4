use mastermind::gen::{color_at, Elisa, Generator, Random, Random1, Random2, Random3};
use mastermind::Color::{Blue, Cyan, Green, Magenta, Red, Yellow};
use mastermind::{Color, Oracle, PinState, ALL_COLORS};

#[test]
fn elisa_always_picks_the_same_row() {
    assert_eq!(Elisa.gen(), PinState::new([Cyan, Green, Yellow, Red]));
    assert_eq!(Elisa.gen(), Elisa.gen());
}

#[test]
fn elisas_row_is_found_by_naming_it() {
    let mut o = Oracle::new(Elisa.gen());
    let eval = o.eval_guess(&PinState::new([Cyan, Green, Yellow, Red]));
    assert_eq!((eval.num_black(), eval.num_white()), (4, 0));
    assert!(eval.is_success());
}

#[test]
fn colors_are_numbered_as_listed() {
    assert_eq!(color_at(0), Blue);
    assert_eq!(color_at(1), Green);
    assert_eq!(color_at(2), Yellow);
    assert_eq!(color_at(3), Magenta);
    assert_eq!(color_at(4), Red);
    assert_eq!(color_at(5), Cyan);
    assert_eq!(ALL_COLORS, [Blue, Green, Yellow, Magenta, Red, Cyan]);
}

#[test]
fn random1_rows_show_one_color() {
    let mut seen: Vec<Color> = Vec::new();
    for _ in 0..10_000 {
        let row = Random1.gen();
        for i in 1..4 {
            assert_eq!(row.pin(i), row.pin(0));
        }
        if !seen.contains(&row.pin(0)) {
            seen.push(row.pin(0));
        }
    }
    assert_eq!(seen.len(), 6);
}

#[test]
fn random2_rows_show_two_colors() {
    let mut seen: Vec<Color> = Vec::new();
    for _ in 0..10_000 {
        let row = Random2.gen();
        let mut distinct: Vec<Color> = Vec::new();
        for i in 0..4 {
            if !distinct.contains(&row.pin(i)) {
                distinct.push(row.pin(i));
            }
            if !seen.contains(&row.pin(i)) {
                seen.push(row.pin(i));
            }
        }
        assert_eq!(distinct.len(), 2);
    }
    // The colors are shuffled afresh for every row.
    assert_eq!(seen.len(), 6);
}

#[test]
fn random2_forces_the_last_pin_only_after_three_alike() {
    assert_eq!(Random2::forced_last(Blue, Red, &[Blue, Blue, Blue]), Some(Red));
    assert_eq!(Random2::forced_last(Blue, Red, &[Red, Red, Red]), Some(Blue));
    assert_eq!(Random2::forced_last(Blue, Red, &[Blue, Red, Blue]), None);
    assert_eq!(Random2::forced_last(Blue, Red, &[Red, Red, Blue]), None);
    assert_eq!(Random2::forced_last(Blue, Red, &[Blue, Blue, Red]), None);
    assert_eq!(Random2::forced_last(Green, Green, &[Green, Green, Green]), Some(Green));
}

#[test]
fn a_coin_picks_between_two_colors() {
    assert_eq!(Random2::pick(true, Blue, Red), Blue);
    assert_eq!(Random2::pick(false, Blue, Red), Red);
    assert_eq!(Random2::pick(false, Cyan, Cyan), Cyan);
}

#[test]
fn random3_rows_show_three_colors_and_one_pair() {
    let mut seen: Vec<Color> = Vec::new();
    let mut pair_places: Vec<(usize, usize)> = Vec::new();
    for _ in 0..10_000 {
        let row = Random3.gen();
        let mut distinct: Vec<Color> = Vec::new();
        for i in 0..4 {
            if !distinct.contains(&row.pin(i)) {
                distinct.push(row.pin(i));
            }
            if !seen.contains(&row.pin(i)) {
                seen.push(row.pin(i));
            }
            for j in 0..i {
                if row.pin(j) == row.pin(i) && !pair_places.contains(&(j, i)) {
                    pair_places.push((j, i));
                }
            }
        }
        assert_eq!(distinct.len(), 3);
        let mut twice = 0;
        for c in &distinct {
            let n = (0..4).filter(|&i| row.pin(i) == *c).count();
            assert!(n == 1 || n == 2);
            if n == 2 {
                twice += 1;
            }
        }
        assert_eq!(twice, 1);
    }
    // Every color turns up, and the pair in every two slots.
    assert_eq!(seen.len(), 6);
    assert_eq!(pair_places.len(), 6);
}

#[test]
fn random_rows_vary() {
    let mut rows: Vec<PinState> = Vec::new();
    for _ in 0..1_000 {
        let row = Random.gen();
        if !rows.contains(&row) {
            rows.push(row);
        }
        for i in 0..4 {
            assert!(ALL_COLORS.contains(&row.pin(i)));
        }
    }
    assert!(rows.len() > 1);
}
