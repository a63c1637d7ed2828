use card_games::card::standard::{deck, Card};
use card_games::game::highlow::{Action, HighLow};
use card_games::game::Game;

#[test]
fn action_codes() {
    assert_eq!(Action::from_code(0), Some(Action::Higher));
    assert_eq!(Action::from_code(1), Some(Action::Lower));
    assert_eq!(Action::from_code(2), None);
    assert_eq!(Action::from_code(u32::MAX), None);
    assert_eq!(u32::from(Action::Higher), 0);
    assert_eq!(u32::from(Action::Lower), 1);
}

#[test]
fn new_game_shows_a_card_and_scores_nothing() {
    let game = HighLow::new(5);
    assert_eq!(game.score(), 0);
    assert_eq!(*game.current_player(), 1);
    assert_eq!(game.legal_actions(), vec![Action::Higher, Action::Lower]);
    assert!(deck().contains(&game.observation()));
}

#[test]
fn a_right_guess_scores_and_a_wrong_one_starts_over() {
    let mut game = HighLow::new(12);
    let mut score = 0u8;
    for _ in 0..51 {
        let shown = game.observation();
        let (next, reward, _) = game.step(Action::Higher).unwrap();
        if next.rank.value() > shown.rank.value() {
            score += 1;
        } else {
            score = 0;
        }
        assert_eq!(reward, score);
        assert_eq!(game.score(), score);
        assert_eq!(game.observation(), next);
    }
}

#[test]
fn lower_is_right_when_the_next_card_is_lower() {
    let mut game = HighLow::new(13);
    let mut score = 0u8;
    for _ in 0..51 {
        let shown = game.observation();
        let (next, reward, _) = game.step(Action::Lower).unwrap();
        if next.rank.value() < shown.rank.value() {
            score += 1;
        } else {
            score = 0;
        }
        assert_eq!(reward, score);
    }
}

#[test]
fn the_game_ends_with_the_last_card_and_then_stays() {
    let mut game = HighLow::new(21);
    let mut drawn: Vec<Card> = vec![game.observation()];
    for step in 0..51 {
        let (card, _, done) = game.step(Action::Higher).unwrap();
        drawn.push(card);
        assert_eq!(done, step == 50);
    }
    for card in deck().iter() {
        assert_eq!(drawn.iter().filter(|c| *c == card).count(), 1);
    }
    let last = game.observation();
    let score = game.score();
    let (card, reward, done) = game.step(Action::Lower).unwrap();
    assert_eq!(card, last);
    assert_eq!(reward, score);
    assert!(done);
    assert_eq!(game.score(), score);
}

#[test]
fn the_deck_is_shuffled() {
    let mut game = HighLow::new(21);
    let mut drawn: Vec<Card> = vec![game.observation()];
    for _ in 0..51 {
        drawn.push(game.step(Action::Higher).unwrap().0);
    }
    let mut canonical = deck().to_vec();
    canonical.reverse();
    assert_ne!(drawn, canonical);
}

#[test]
fn reset_starts_a_new_game() {
    let mut game = HighLow::new(4);
    for _ in 0..51 {
        game.step(Action::Higher).unwrap();
    }
    game.reset();
    assert_eq!(game.score(), 0);
    let (_, _, done) = game.step(Action::Higher).unwrap();
    assert!(!done);
}
