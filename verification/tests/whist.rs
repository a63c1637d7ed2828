use card_games::card::standard::{deck, Card, Rank, Suit};
use card_games::game::whist::hand::legal_slots;
use card_games::game::whist::trick::trick_winner;
use card_games::game::whist::{Player, Whist, WhistError};
use card_games::game::Game;

fn held_cards(whist: &Whist) -> Vec<Card> {
    let mut cards = Vec::new();
    for player in whist.players().iter() {
        for card in player.hand().iter() {
            if let Some(card) = card {
                cards.push(*card);
            }
        }
    }
    cards
}

fn assert_is_whole_deck(cards: &[Card]) {
    assert_eq!(cards.len(), 52);
    for card in deck().iter() {
        assert_eq!(cards.iter().filter(|c| *c == card).count(), 1);
    }
}

#[test]
fn test_deal() {
    let mut whist = Whist::new(7);
    whist.deal().unwrap();

    let mut seen: Vec<Card> = Vec::new();

    for player in whist.players().iter() {
        for card in player.hand().iter() {
            assert!(card.is_some());
            assert!(!seen.contains(&card.unwrap()));
            seen.push(card.unwrap());
        }
    }
}

#[test]
fn test_legal_actions() {
    let mut whist = Whist::new(7);
    whist.deal().unwrap();

    let player = whist.current_player();

    for card in player.hand().iter() {
        if let Some(card) = card {
            println!("{}", card.suit.name());
        } else {
            println!("None");
        }
    }

    let actions = whist.legal_actions();
    assert_eq!(actions.len(), 13);

    println!("actions: {:?}", actions);

    let trick = vec![Card { suit: Suit::Hearts, rank: Rank::Ace }];

    let actions = legal_slots(whist.current_player().hand(), &trick);
    println!("actions: {:?}", actions);
}

#[test]
fn test_step() {
    let mut whist = Whist::new(7);
    println!("TRUMPS ARE: {:?}", whist.trumps());
    whist.deal().unwrap();

    for _ in 0..13 {
        for _ in 0..4 {
            let actions = whist.legal_actions();
            whist.step(actions[0]).unwrap();
        }

        println!("");
    }

    assert!(whist.is_finished());
}

#[test]
fn new_engine_has_nothing_dealt() {
    let whist = Whist::new(1);
    assert!(!whist.is_dealt());
    assert!(!whist.is_finished());
    assert!(whist.trick().is_empty());
    assert!(whist.seen().is_empty());
    assert!(whist.legal_actions().is_empty());
    assert_eq!(whist.current_player().id(), 0);
    for (seat, player) in whist.players().iter().enumerate() {
        assert_eq!(player.id() as usize, seat);
        assert_eq!(player.score(), 0);
        assert!(player.hand().iter().all(|slot| slot.is_none()));
    }
}

#[test]
fn step_before_the_deal_is_an_invalid_action() {
    let mut whist = Whist::new(1);
    assert_eq!(whist.step(0).unwrap_err(), WhistError::InvalidAction);
    assert!(!whist.is_dealt());
    assert!(whist.seen().is_empty());
}

#[test]
fn second_deal_is_refused_and_changes_nothing() {
    let mut whist = Whist::new(3);
    assert_eq!(whist.deal(), Ok(()));
    let before = held_cards(&whist);
    assert_eq!(whist.deal(), Err(WhistError::DeckExhausted));
    assert_eq!(held_cards(&whist), before);
    assert!(whist.is_dealt());
}

#[test]
fn deal_shares_out_the_whole_deck() {
    let mut whist = Whist::new(11);
    whist.deal().unwrap();
    assert_is_whole_deck(&held_cards(&whist));
}

#[test]
fn deal_is_shuffled() {
    let mut whist = Whist::new(11);
    whist.deal().unwrap();
    let canonical = deck();
    let mut same = true;
    for (seat, player) in whist.players().iter().enumerate() {
        for (slot, card) in player.hand().iter().enumerate() {
            if *card != Some(canonical[4 * slot + seat]) {
                same = false;
            }
        }
    }
    assert!(!same);
}

#[test]
fn same_seed_same_deal() {
    let mut a = Whist::new(2024);
    let mut b = Whist::new(2024);
    a.deal().unwrap();
    b.deal().unwrap();
    assert_eq!(a.trumps(), b.trumps());
    for seat in 0..4 {
        assert_eq!(a.players()[seat].hand(), b.players()[seat].hand());
    }
}

#[test]
fn out_of_range_slot_is_refused() {
    let mut whist = Whist::new(5);
    whist.deal().unwrap();
    assert_eq!(whist.step(13).unwrap_err(), WhistError::InvalidAction);
    assert_eq!(whist.step(255).unwrap_err(), WhistError::InvalidAction);
    assert!(whist.seen().is_empty());
    assert_eq!(whist.current_player().id(), 0);
}

#[test]
fn empty_slot_is_refused_and_changes_nothing() {
    let mut whist = Whist::new(5);
    whist.deal().unwrap();
    for _ in 0..4 {
        let actions = whist.legal_actions();
        whist.step(actions[0]).unwrap();
    }
    let player = whist.current_player().id();
    let empty = whist
        .current_player()
        .hand()
        .iter()
        .position(|slot| slot.is_none())
        .unwrap() as u8;
    let seen = whist.seen().clone();
    assert_eq!(whist.step(empty).unwrap_err(), WhistError::InvalidAction);
    assert_eq!(whist.seen(), &seen);
    assert_eq!(whist.current_player().id(), player);
    assert!(whist.trick().is_empty());
}

#[test]
fn first_card_moves_to_trick_and_history_and_passes_the_turn() {
    let mut whist = Whist::new(9);
    whist.deal().unwrap();
    let card = whist.current_player().hand()[4].unwrap();
    let (state, reward, done) = whist.step(4).unwrap();
    assert_eq!(reward, 0);
    assert!(!done);
    assert_eq!(whist.trick(), &vec![card]);
    assert_eq!(whist.seen(), &vec![card]);
    assert_eq!(whist.current_player().id(), 1);
    assert_eq!(whist.players()[0].hand()[4], None);
    assert_eq!(&state.0, whist.players()[1].hand());
    assert_eq!(state.1, vec![card]);
    assert_eq!(state.2, whist.trumps());
    assert_eq!(state.3, vec![card]);
}

#[test]
fn observation_shows_the_hand_of_the_player_to_act() {
    let mut whist = Whist::new(9);
    whist.deal().unwrap();
    let state = whist.observation();
    assert_eq!(&state.0, whist.players()[0].hand());
    assert!(state.1.is_empty());
    assert_eq!(state.2, whist.trumps());
    assert!(state.3.is_empty());
}

#[test]
fn legal_actions_follow_the_leading_suit() {
    for seed in 0..20u64 {
        let mut whist = Whist::new(seed);
        whist.deal().unwrap();
        for _ in 0..52 {
            let actions = whist.legal_actions();
            let hand = *whist.current_player().hand();
            let held: Vec<u8> = (0..13u8).filter(|i| hand[*i as usize].is_some()).collect();
            match whist.trick().first() {
                None => assert_eq!(actions, held),
                Some(lead) => {
                    let following: Vec<u8> = held
                        .iter()
                        .copied()
                        .filter(|i| hand[*i as usize].unwrap().suit == lead.suit)
                        .collect();
                    if following.is_empty() {
                        assert_eq!(actions, held);
                    } else {
                        assert_eq!(actions, following);
                    }
                }
            }
            assert!(!actions.is_empty());
            let last = *actions.last().unwrap();
            whist.step(last).unwrap();
        }
    }
}

#[test]
fn revoking_is_refused() {
    let mut found = false;
    for seed in 0..50u64 {
        let mut whist = Whist::new(seed);
        whist.deal().unwrap();
        whist.step(0).unwrap();
        let lead = whist.trick()[0].suit;
        let hand = *whist.current_player().hand();
        let can_follow = hand.iter().any(|c| c.unwrap().suit == lead);
        let off = hand.iter().position(|c| c.unwrap().suit != lead);
        if let (true, Some(slot)) = (can_follow, off) {
            assert_eq!(whist.step(slot as u8).unwrap_err(), WhistError::InvalidAction);
            assert_eq!(whist.trick().len(), 1);
            assert_eq!(whist.current_player().id(), 1);
            assert_eq!(whist.players()[1].hand(), &hand);
            found = true;
        }
    }
    assert!(found);
}

#[test]
fn a_full_deal_ends_once_with_thirteen_tricks() {
    for seed in [0u64, 1, 2, 42, 1000] {
        let mut whist = Whist::new(seed);
        whist.deal().unwrap();
        let mut dones = 0;
        for step in 0..52 {
            assert!(!whist.is_finished());
            let actions = whist.legal_actions();
            let (_, reward, done) = whist.step(actions[0]).unwrap();
            assert_eq!(reward, 0);
            if done {
                dones += 1;
                assert_eq!(step, 51);
            }
            assert_eq!(whist.seen().len(), step + 1);
            assert_eq!(whist.trick().len(), (step + 1) % 4);
            let won: u32 = whist.players().iter().map(|p| p.score() as u32).sum();
            assert_eq!(won as usize, (step + 1) / 4);
        }
        assert_eq!(dones, 1);
        assert!(whist.is_finished());
        assert!(held_cards(&whist).is_empty());
        let won: u32 = whist.players().iter().map(|p| p.score() as u32).sum();
        assert_eq!(won, 13);
        assert_is_whole_deck(whist.seen());
        assert!(whist.legal_actions().is_empty());
    }
}

#[test]
fn step_after_the_end_is_refused() {
    let mut whist = Whist::new(8);
    whist.deal().unwrap();
    for _ in 0..52 {
        let actions = whist.legal_actions();
        whist.step(actions[0]).unwrap();
    }
    assert_eq!(whist.step(0).unwrap_err(), WhistError::DealFinished);
    assert_eq!(whist.step(200).unwrap_err(), WhistError::DealFinished);
    assert_eq!(whist.seen().len(), 52);
    assert!(whist.is_finished());
}

#[test]
fn no_card_is_lost_or_doubled_during_play() {
    let mut whist = Whist::new(77);
    whist.deal().unwrap();
    for _ in 0..52 {
        let mut all = held_cards(&whist);
        all.extend(whist.seen().iter().copied());
        assert_is_whole_deck(&all);
        let n = whist.seen().len();
        let t = whist.trick().len();
        assert_eq!(&whist.seen()[n - t..], &whist.trick()[..]);
        let actions = whist.legal_actions();
        whist.step(actions[actions.len() / 2]).unwrap();
    }
}

#[test]
fn the_taker_of_a_trick_leads_the_next() {
    let mut whist = Whist::new(314);
    whist.deal().unwrap();
    let mut leader = 0u32;
    for _ in 0..13 {
        assert_eq!(whist.current_player().id(), leader);
        let mut trick = Vec::new();
        for k in 0..4 {
            assert_eq!(whist.current_player().id(), (leader + k) % 4);
            let actions = whist.legal_actions();
            let slot = actions[0];
            trick.push(whist.current_player().hand()[slot as usize].unwrap());
            whist.step(slot).unwrap();
        }
        let before: Vec<u8> = whist.players().iter().map(|p| p.score()).collect();
        let position = trick_winner(&trick, whist.trumps()).unwrap() as u32;
        leader = (leader + position) % 4;
        assert_eq!(whist.current_player().id(), leader);
        assert!(before[leader as usize] >= 1);
        assert!(whist.trick().is_empty());
    }
}

#[test]
fn reset_twice_gives_two_whole_deals() {
    let mut whist = Whist::new(99);
    whist.deal().unwrap();
    whist.step(0).unwrap();
    whist.reset();
    assert!(whist.is_dealt());
    assert!(whist.seen().is_empty());
    assert!(whist.trick().is_empty());
    assert_eq!(whist.current_player().id(), 0);
    let first = held_cards(&whist);
    assert_is_whole_deck(&first);
    whist.reset();
    let second = held_cards(&whist);
    assert_is_whole_deck(&second);
    assert_ne!(first, second);
    for player in whist.players().iter() {
        assert_eq!(player.score(), 0);
    }
}

#[test]
fn player_converts_to_its_id() {
    let player = Player::new(3);
    assert_eq!(player.id(), 3);
    assert_eq!(player.score(), 0);
    assert_eq!(player.hand(), &[None; 13]);
    assert_eq!(u32::from(player), 3);
}
