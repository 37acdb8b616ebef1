use cl_wordle::cheat::{last_max, Cheat};
use cl_wordle::date::Date;
use cl_wordle::game::{Game, GameType};
use cl_wordle::keyboard::Keyboard;
use cl_wordle::state::{GameOver, GuessError, State};
use cl_wordle::words::WordSet;
use cl_wordle::{diff, Match, Matches};

use Match::{Close, Exact, Wrong};

const G: &str = "\u{1F7E9}";
const Y: &str = "\u{1F7E8}";
const B: &str = "\u{2B1B}";

fn strings(words: &[&str]) -> Vec<String> {
    words.iter().map(|w| w.to_string()).collect()
}

fn word_set() -> WordSet {
    WordSet {
        date_offset: Date::from_calendar_date(2021, 6, 19).unwrap(),
        solutions: strings(&["cigar", "rebut", "sissy", "humph", "awake", "blush", "focal"]),
        acceptable: strings(&[
            "crane", "carts", "chair", "soare", "tares", "class", "crest", "stars", "kills",
            "skill", "aahed",
        ]),
    }
}

fn row(glyphs: [&str; 5]) -> String {
    glyphs.concat()
}

#[test]
fn test_diff_double_letter_one_exact_one_wrong() {
    assert_eq!(diff("class", "crest").0, [Exact, Wrong, Wrong, Exact, Wrong]);
}

#[test]
fn test_diff_double_letter_one_close_one_wrong() {
    assert_eq!(diff("stars", "crest").0, [Close, Close, Wrong, Close, Wrong]);
}

#[test]
fn test_diff_double_letter_one_exact_one_close() {
    assert_eq!(diff("kills", "skill").0, [Close, Close, Close, Exact, Close]);
}

#[test]
fn diff_of_word_with_itself_is_all_exact() {
    for w in ["cigar", "sissy", "humph", "aahed"] {
        let m = diff(w, w);
        assert_eq!(m.0, [Exact; 5]);
        assert!(m.win());
    }
}

#[test]
fn diff_credits_each_solution_letter_once() {
    // three s in the guess, one in the solution
    let m = diff("sissy", "crest");
    let positive = m.0.iter().filter(|&&x| x != Wrong).count();
    assert_eq!(positive, 1);
    assert_eq!(m.0, [Wrong, Wrong, Wrong, Exact, Wrong]);
    // the first of two a claims the one a of the solution
    let m = diff("aahed", "cigar");
    assert_eq!(m.0, [Close, Wrong, Wrong, Wrong, Wrong]);
}

#[test]
fn diff_twice_gives_identical_feedback() {
    assert_eq!(diff("crane", "cigar"), diff("crane", "cigar"));
    assert_eq!(diff("kills", "skill"), diff("kills", "skill"));
}

#[test]
fn matches_win_only_when_all_exact() {
    assert!(Matches([Exact; 5]).win());
    assert!(!Matches([Exact, Exact, Exact, Exact, Close]).win());
    assert!(!Matches([Wrong; 5]).win());
}

#[test]
fn glyphs_of_feedback() {
    assert_eq!(Exact.to_string(), G);
    assert_eq!(Close.to_string(), Y);
    assert_eq!(Wrong.to_string(), B);
    assert_eq!(diff("crane", "cigar").to_string(), row([G, Y, Y, B, B]));
}

#[test]
fn game_state_four_guesses_win_and_share_card() {
    let mut game = Game::from_day(0, word_set());
    assert_eq!(game.solution(), "cigar");
    for w in ["crane", "carts", "chair"] {
        game.guess(w).unwrap();
        assert!(game.game_over().is_none());
    }
    game.guess("cigar").unwrap();
    assert!(game.game_over().unwrap().is_win());
    let card = game.share().to_string();
    let expected = format!(
        "Wordle 0 4/6\n{}\n{}\n{}\n{}",
        row([G, Y, Y, B, B]),
        row([G, Y, Y, B, B]),
        row([G, B, Y, Y, G]),
        row([G, G, G, G, G]),
    );
    assert_eq!(card, expected);
    assert_eq!(card.lines().next().unwrap().chars().nth(9), Some('4'));
}

#[test]
fn hard_mode_requires_exact_first_letter() {
    let mut game = Game::from_day(0, word_set());
    game.hard_mode();
    assert_eq!(game.hard_mode_indicator(), "*");
    let m = game.guess("crane").unwrap();
    assert_eq!(m.0[0], Exact);
    assert_eq!(game.guess("tares"), Err(GuessError::MissingExactValues(0)));
    assert_eq!(game.state().guess_count(), 1);
    assert!(game.guess("chair").is_ok());
    assert_eq!(game.state().guess_count(), 2);
}

#[test]
fn hard_mode_off_accepts_any_word() {
    let mut game = Game::from_day(0, word_set());
    assert_eq!(game.hard_mode_indicator(), "");
    game.guess("crane").unwrap();
    assert!(game.guess("tares").is_ok());
}

#[test]
fn guess_not_in_word_list_is_refused() {
    let mut game = Game::from_day(0, word_set());
    assert_eq!(game.guess("zzzzz"), Err(GuessError::NotInWordList));
    assert_eq!(game.guess("cigars"), Err(GuessError::NotInWordList));
    assert!(game.game_over().is_none());
    assert_eq!(game.current_guess(), 1);
}

#[test]
fn six_misses_lose() {
    let mut game = Game::from_day(0, word_set());
    for (i, w) in ["crane", "carts", "chair", "soare", "tares", "crest"].iter().enumerate() {
        assert!(game.game_over().is_none());
        game.guess(w).unwrap();
        assert_eq!(game.current_guess(), (i + 2).min(6));
    }
    assert!(game.game_over().unwrap().is_lose());
    assert_eq!(game.state().guess_count(), 6);
    let card = game.share().to_string();
    assert!(card.starts_with("Wordle 0 X/6\n"));
    assert_eq!(card.lines().count(), 7);
}

#[test]
fn score_card_in_hard_mode_has_star() {
    let mut game = Game::from_day(0, word_set());
    game.hard_mode();
    game.guess("cigar").unwrap();
    assert_eq!(game.share().to_string(), format!("Wordle 0 1/6*\n{}", row([G; 5])));
}

#[test]
fn state_score_card_and_iteration() {
    let mut state = State::new("rebut".to_string(), word_set());
    assert_eq!(state.max_guesses(), 6);
    assert!(state.game_over().is_none());
    state.guess("crane", false).unwrap();
    state.guess("rebut", false).unwrap();
    assert_eq!(state.game_over(), Some(GameOver::Win));
    assert_eq!(state.display_score_card(false), format!("2/6\n{}\n{}", row([B, Y, B, B, Y]), row([G; 5])));
    let mut it = state.guesses();
    let (w, m) = it.next_back().unwrap();
    assert_eq!(w, "rebut");
    assert!(m.win());
    let (w, m) = it.next().unwrap();
    assert_eq!(w, "crane");
    assert_eq!(m, diff("crane", "rebut"));
    assert!(it.next().is_none());
    assert!(it.next_back().is_none());
}

#[test]
fn game_over_variants() {
    assert!(GameOver::Win.is_win());
    assert!(!GameOver::Win.is_lose());
    assert!(GameOver::Lose.is_lose());
    assert!(!GameOver::Lose.is_win());
}

#[test]
fn custom_game_needs_a_solution_word() {
    let game = Game::custom("humph".to_string(), word_set()).unwrap();
    assert_eq!(game.solution(), "humph");
    assert_eq!(game.game_type(), GameType::Custom);
    assert!(game.share().to_string().starts_with("Wordle custom 0/6"));
    let err = Game::custom("crane".to_string(), word_set()).err().unwrap();
    assert_eq!(err.word, "crane");
}

#[test]
fn solutions_repeat_by_day() {
    let ws = word_set();
    assert_eq!(ws.get_solution(1), "rebut");
    assert_eq!(ws.get_solution(7), "cigar");
    assert_eq!(ws.get_solution(9), "sissy");
    let game = Game::from_day(123, word_set());
    assert_eq!(game.game_type(), GameType::Daily(123));
    assert_eq!(game.solution(), "awake");
    assert_eq!(GameType::Daily(123).to_string(), "123");
    assert_eq!(GameType::Daily(0).to_string(), "0");
    assert_eq!(GameType::Custom.to_string(), "custom");
}

#[test]
fn word_validity() {
    let ws = word_set();
    assert!(ws.valid("cigar"));
    assert!(ws.valid("crane"));
    assert!(!ws.valid("zzzzz"));
    assert!(!ws.valid(""));
}

#[test]
fn dates_and_day_numbers() {
    let ws = word_set();
    let d = Date::from_calendar_date(2021, 6, 20).unwrap();
    assert_eq!(ws.get_day(&d), 1);
    let d = Date::from_calendar_date(2022, 6, 19).unwrap();
    assert_eq!(ws.get_day(&d), 365);
    let d = Date::from_calendar_date(2021, 6, 18).unwrap();
    assert_eq!(ws.get_day(&d), usize::MAX);
    assert_eq!((d.year(), d.month(), d.day()), (2021, 6, 18));
    assert!(Date::from_calendar_date(2021, 2, 29).is_none());
    assert!(Date::from_calendar_date(2024, 2, 29).is_some());
    assert!(Date::from_calendar_date(2021, 13, 1).is_none());
    assert!(Date::from_calendar_date(2021, 0, 1).is_none());
    let game = Game::from_date(&Date::from_calendar_date(2021, 6, 21).unwrap(), word_set());
    assert_eq!(game.game_type(), GameType::Daily(2));
    assert_eq!(game.solution(), "sissy");
    let a = Date::from_calendar_date(2000, 1, 1).unwrap();
    assert_eq!(a.to_julian_day(), 2_451_545);
}

#[test]
fn last_max_takes_last_of_equals() {
    assert_eq!(last_max(&vec![3, 7, 1, 7, 2]), 3);
    assert_eq!(last_max(&vec![5]), 0);
    assert_eq!(last_max(&vec![-4, -2, -9]), 1);
}

#[test]
fn solver_pool_shrinks_and_keeps_solution() {
    let ws = word_set();
    let mut cheat = Cheat::new(&ws);
    let mut game = Game::from_day(4, word_set());
    assert!(cheat.is_first_move());
    let mut size = cheat.answers().len();
    assert_eq!(size, 7);
    for w in ["crane", "blush"] {
        let (g, m) = cheat.guess(&mut game, w).unwrap();
        assert_eq!(g, w);
        assert_eq!(m, diff(w, "awake"));
        let answers = cheat.answers();
        assert!(answers.len() <= size);
        assert!(answers.iter().any(|a| a == "awake"));
        for a in &answers {
            assert_eq!(diff(w, a), m);
        }
        size = answers.len();
    }
    assert!(!cheat.is_first_move());
    assert!(cheat.guess(&mut game, "qqqqq").is_err());
    assert_eq!(cheat.answers().len(), size);
}

#[test]
fn solver_partition_counts() {
    let ws = word_set();
    let cheat = Cheat::new(&ws);
    let parts = cheat.partition("cigar");
    let total: usize = parts.iter().map(|p| p.1).sum();
    assert_eq!(total, 7);
    let win = parts.iter().find(|p| p.0.win()).unwrap();
    assert_eq!(win.1, 1);
    for (i, a) in parts.iter().enumerate() {
        for b in &parts[i + 1..] {
            assert_ne!(a.0, b.0);
        }
    }
    let moves = cheat.available_moves(&ws);
    assert_eq!(moves.len(), 18);
    assert_eq!(moves[0], "crane");
    assert_eq!(moves[11], "cigar");
}

fn entropy_keys(cheat: &Cheat, moves: &[String]) -> Vec<i32> {
    let n = cheat.answers().len() as f64;
    moves
        .iter()
        .map(|mv| {
            let entropy: f64 = cheat
                .partition(mv)
                .iter()
                .map(|p| p.1 as f64 / n)
                .map(|v| v * v.log2())
                .sum();
            (entropy * -1000.0) as i32
        })
        .collect()
}

fn play(day: usize) -> Result<usize, usize> {
    let ws = word_set();
    let mut cheat = Cheat::new(&ws);
    let mut game = Game::from_day(day, word_set());
    for i in 0..6 {
        let moves = cheat.available_moves(&ws);
        let keys = entropy_keys(&cheat, &moves);
        let next = cheat.next_move(&moves, &keys);
        let (_, m) = cheat.guess(&mut game, &next).expect("cheat made an invalid guess");
        if m.win() {
            return Ok(i);
        }
    }
    Err(day)
}

#[test]
fn play_all() {
    let n = word_set().solutions.len();
    let mut scores = Vec::with_capacity(n);
    for day in 0..n {
        scores.push(play(day).unwrap());
    }
    println!("{}", scores.into_iter().sum::<usize>());
}

#[test]
fn solver_opens_with_fixed_word() {
    let ws = word_set();
    let cheat = Cheat::new(&ws);
    let moves = cheat.available_moves(&ws);
    let keys = vec![0; moves.len()];
    assert_eq!(cheat.next_move(&moves, &keys), "soare");
}

#[test]
fn keyboard_keeps_best_outcome_per_letter() {
    let mut kb = Keyboard::default();
    assert!((0..26).all(|i| kb.letter(i).is_none()));
    kb.push("crane", diff("crane", "cigar"));
    assert_eq!(kb.letter(2), Some(Exact));
    assert_eq!(kb.letter(17), Some(Close));
    assert_eq!(kb.letter(0), Some(Close));
    assert_eq!(kb.letter(13), Some(Wrong));
    assert_eq!(kb.letter(25), None);
    kb.push("cigar", diff("cigar", "cigar"));
    assert_eq!(kb.letter(0), Some(Exact));
    assert_eq!(kb.letter(17), Some(Exact));
    kb.push("carts", diff("carts", "cigar"));
    assert_eq!(kb.letter(0), Some(Exact));
    assert_eq!(kb.letter(19), Some(Wrong));
    // a letter seen twice in one guess keeps the better outcome
    let mut kb = Keyboard::new();
    kb.push("aahed", diff("aahed", "cigar"));
    assert_eq!(kb.letter(0), Some(Close));
}
