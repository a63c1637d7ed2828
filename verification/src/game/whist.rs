//! Four-player trick-taking: one deal of the standard deck.

use rand::rngs::StdRng;
use std::cmp::Ordering;
use vstd::prelude::*;
use vstd::std_specs::convert::FromSpecImpl;
use crate::card::standard::{deck, standard_deck, Card, Suit};
use crate::card::ConditionalOrd;
use crate::game::whist::deal::deal_out;
use crate::game::whist::hand::{legal_slots, playable};
use crate::game::whist::state::{
    lemma_deal_inv, lemma_finished, lemma_fresh_inv, lemma_play_inv, PlayerView, WhistView,
};
use crate::game::whist::trick::trick_winner;
use crate::game::Game;
use crate::random::{seeded, shuffle};

pub mod deal;
pub mod hand;
pub mod state;
pub mod trick;

verus! {

/// The suit that outranks all others in a trick: the trump suit of the deal,
/// or the leading suit of the trick where the deal has none.
pub open spec fn effective_trump(leading: Suit, trumps: Option<Suit>) -> Suit {
    match trumps {
        Some(suit) => suit,
        None => leading,
    }
}

/// Suits within a trick, given the leading suit and the trump suit of the deal.
///
/// A suit equals itself; any suit is below the effective trump suit; in every
/// other case the left suit is reported as greater. Two different suits
/// that are both not the effective trump are therefore each greater than the
/// other: this is a pairwise rule, not an order.
impl ConditionalOrd for Suit {
    type Info = (Suit, Option<Suit>);

    open spec fn compare_spec(&self, other: &Self, info: &(Suit, Option<Suit>)) -> Ordering {
        if *self == *other {
            Ordering::Equal
        } else if *other == effective_trump(info.0, info.1) {
            Ordering::Less
        } else {
            Ordering::Greater
        }
    }

    fn compare(&self, other: &Self, info: &(Suit, Option<Suit>)) -> (o: Ordering) {
        let trumps = match info.1 {
            Some(suit) => suit,
            None => info.0,
        };
        if *self == *other {
            Ordering::Equal
        } else if *other == trumps {
            Ordering::Less
        } else {
            Ordering::Greater
        }
    }
}

/// The effective trump suit is above every other suit, and every other suit
/// is below it.
pub proof fn lemma_trump_outranks(suit: Suit, leading: Suit, trumps: Option<Suit>)
    requires
        suit != effective_trump(leading, trumps),
    ensures
        effective_trump(leading, trumps).compare_spec(&suit, &(leading, trumps))
            == Ordering::Greater,
        suit.compare_spec(&effective_trump(leading, trumps), &(leading, trumps))
            == Ordering::Less,
{
}

/// Two different suits, neither of them the effective trump suit, are each
/// reported greater than the other.
pub proof fn lemma_side_suits_both_greater(a: Suit, b: Suit, leading: Suit, trumps: Option<Suit>)
    requires
        a != b,
        a != effective_trump(leading, trumps),
        b != effective_trump(leading, trumps),
    ensures
        a.compare_spec(&b, &(leading, trumps)) == Ordering::Greater,
        b.compare_spec(&a, &(leading, trumps)) == Ordering::Greater,
{
}

/// Cards within a trick: by suit first, and by rank where the suits are equal.
impl ConditionalOrd for Card {
    type Info = (Suit, Option<Suit>);

    open spec fn compare_spec(&self, other: &Self, info: &(Suit, Option<Suit>)) -> Ordering {
        match self.suit.compare_spec(&other.suit, info) {
            Ordering::Equal => self.rank.compare_spec(&other.rank, &()),
            o => o,
        }
    }

    fn compare(&self, other: &Self, info: &(Suit, Option<Suit>)) -> (o: Ordering) {
        match self.suit.compare(&other.suit, info) {
            Ordering::Equal => self.rank.compare(&other.rank, &()),
            o => o,
        }
    }
}

/// Why the engine refused a call.
#[derive(Debug, PartialEq, Eq, Clone, Copy, Structural)]
pub enum WhistError {
    /// The action is not among the legal actions.
    InvalidAction,
    /// The deal is finished: no card is left to play.
    DealFinished,
    /// The deck has been dealt: no card is left to deal.
    DeckExhausted,
}

/// One of the four players: a seat, thirteen card slots and a count of tricks.
#[derive(Debug)]
pub struct Player {
    id: u32,
    hand: [Option<Card>; 13],
    score: u8,
}

impl View for Player {
    type V = PlayerView;

    closed spec fn view(&self) -> PlayerView {
        PlayerView { id: self.id as nat, hand: self.hand@, score: self.score as nat }
    }
}

impl Player {
    /// A player without cards or tricks.
    pub fn new(id: u32) -> (player: Player)
        ensures
            player@ == (PlayerView { id: id as nat, hand: Seq::new(13, |i: int| None), score: 0 }),
    {
        let player = Player { id: id, hand: [None;13], score: 0 };
        assert(player.hand@ =~= Seq::new(13, |i: int| None));
        player
    }

    pub fn id(&self) -> (id: u32)
        ensures
            id == self@.id,
    {
        self.id
    }

    /// The card slots of the player. A slot keeps its place for the whole deal.
    pub fn hand(&self) -> (hand: &[Option<Card>; 13])
        ensures
            hand@ == self@.hand,
    {
        &self.hand
    }

    /// The tricks the player has won.
    pub fn score(&self) -> (score: u8)
        ensures
            score == self@.score,
    {
        self.score
    }
}

impl From<Player> for u32 {
    fn from(player: Player) -> (id: u32) {
        player.id
    }
}

impl FromSpecImpl<Player> for u32 {
    open spec fn obeys_from_spec() -> bool {
        true
    }

    open spec fn from_spec(player: Player) -> u32 {
        player@.id as u32
    }
}

/// What a player may see: the own hand, the cards played so far in the deal,
/// the trump suit, and the trick in progress.
pub type Observation = ([Option<Card>; 13], Vec<Card>, Option<Suit>, Vec<Card>);

/// One deal of four-player trick-taking.
pub struct Whist {
    players: [Player; 4],
    turn: usize,
    trick: Vec<Card>,
    seen: Vec<Card>,
    trumps: Option<Suit>,
    deck: [Card; 52],
    dealt: bool,
    rng: StdRng,
}

impl View for Whist {
    type V = WhistView;

    closed spec fn view(&self) -> WhistView {
        WhistView {
            players: Seq::new(4, |seat: int| self.players[seat]@),
            turn: self.turn as int,
            trick: self.trick@,
            seen: self.seen@,
            trumps: self.trumps,
            undealt: if self.dealt {
                Seq::empty()
            } else {
                self.deck@
            },
        }
    }
}

fn copy_of(cards: &Vec<Card>) -> (copy: Vec<Card>)
    ensures
        copy@ == cards@,
{
    let mut copy: Vec<Card> = Vec::new();
    let mut i: usize = 0;
    while i < cards.len()
        invariant
            i <= cards.len(),
            copy@ == cards@.take(i as int),
        decreases cards.len() - i,
    {
        copy.push(cards[i]);
        assert(cards@.take(i + 1) =~= cards@.take(i as int).push(cards@[i as int]));
        i += 1;
    }
    assert(cards@.take(cards.len() as int) =~= cards@);
    copy
}

/// Draws the trump suit of a deal: the five choices, the four suits and no
/// trumps, are shuffled and the first is taken.
fn draw_trumps(rng: &mut StdRng) -> Option<Suit> {
    let mut choices = [
        Some(Suit::Hearts),
        Some(Suit::Clubs),
        Some(Suit::Diamonds),
        Some(Suit::Spades),
        None,
    ];
    shuffle(&mut choices, rng);
    choices[0]
}

impl Whist {
    /// A well-formed engine is in a state that a deal can reach.
    pub proof fn lemma_wf(&self)
        requires
            self.wf(),
        ensures
            self@.inv(),
    {
    }

    /// An engine before the deal, with its own generator seeded with `seed`:
    /// the trump suit is drawn, the players sit without cards, and the deck
    /// lies undealt in its canonical order.
    pub fn new(seed: u64) -> (game: Whist)
        ensures
            game.wf(),
            game@ == WhistView::fresh(game@.trumps, standard_deck()),
    {
        let mut rng = seeded(seed);
        let trumps = draw_trumps(&mut rng);
        let game = Whist {
            players: [Player::new(0), Player::new(1), Player::new(2), Player::new(3)],
            turn: 0,
            trick: Vec::new(),
            seen: Vec::new(),
            trumps,
            deck: deck(),
            dealt: false,
            rng,
        };
        proof {
            lemma_fresh_inv(trumps, standard_deck());
            assert(game@.players =~= WhistView::fresh(trumps, standard_deck()).players);
        }
        game
    }

    /// Shuffles the deck and deals it out, thirteen cards to each player.
    /// Refused, with nothing changed, once the cards have been dealt.
    pub fn deal(&mut self) -> (outcome: Result<(), WhistError>)
        requires
            old(self).wf(),
        ensures
            final(self).wf(),
            outcome is Ok <==> !old(self)@.dealt(),
            outcome is Ok ==> old(self)@.deals_to(final(self)@),
            outcome is Err ==> outcome == Err::<(), WhistError>(WhistError::DeckExhausted)
                && *final(self) == *old(self),
    {
        if self.dealt {
            return Err(WhistError::DeckExhausted);
        }
        shuffle(&mut self.deck, &mut self.rng);
        let hands = deal_out(&self.deck);
        self.players[0].hand = hands[0];
        self.players[1].hand = hands[1];
        self.players[2].hand = hands[2];
        self.players[3].hand = hands[3];
        self.dealt = true;
        proof {
            assert(self@.undealt =~= Seq::empty());
            assert(old(self)@.deals_to(self@));
            lemma_deal_inv(old(self)@, self@);
        }
        Ok(())
    }

    /// The four players, by seat, for whoever owns the engine. A player at
    /// the table sees no more than `observation` shows.
    pub fn players(&self) -> (players: &[Player; 4])
        ensures
            players@.len() == 4,
            forall|seat: int| 0 <= seat < 4 ==> (#[trigger] players[seat])@ == self@.players[seat],
    {
        &self.players
    }

    /// The cards of the trick in progress, in the order played.
    pub fn trick(&self) -> (trick: &Vec<Card>)
        ensures
            trick@ == self@.trick,
    {
        &self.trick
    }

    /// All cards played in this deal, in the order played.
    pub fn seen(&self) -> (seen: &Vec<Card>)
        ensures
            seen@ == self@.seen,
    {
        &self.seen
    }

    /// The trump suit of the deal, if it has one.
    pub fn trumps(&self) -> (trumps: Option<Suit>)
        ensures
            trumps == self@.trumps,
    {
        self.trumps
    }

    /// Whether the cards have been dealt.
    pub fn is_dealt(&self) -> (dealt: bool)
        ensures
            dealt == self@.dealt(),
    {
        self.dealt
    }

    /// Whether the deal is over.
    pub fn is_finished(&self) -> (finished: bool)
        requires
            self.wf(),
        ensures
            finished == self@.finished(),
    {
        proof {
            lemma_finished(self@);
        }
        self.dealt && self.seen.len() == 52
    }
}

impl Game for Whist {
    type Action = u8;

    type Player = Player;

    type Reward = u8;

    type State = Observation;

    type Error = WhistError;

    closed spec fn wf(&self) -> bool {
        &&& self@.inv()
        &&& self.deck@.to_multiset() == standard_deck().to_multiset()
    }

    open spec fn legal(&self, action: u8) -> bool {
        self@.legal(action)
    }

    open spec fn finished(&self) -> bool {
        self@.finished()
    }

    open spec fn observed(&self, state: Observation) -> bool {
        &&& state.0@ == self@.hand()
        &&& state.1@ == self@.seen
        &&& state.2 == self@.trumps
        &&& state.3@ == self@.trick
    }

    fn current_player(&self) -> (player: &Player)
        ensures
            player@ == self@.players[self@.turn],
    {
        &self.players[self.turn]
    }

    /// The slots that the player to act may play, in increasing order.
    fn legal_actions(&self) -> (actions: Vec<u8>)
        ensures
            forall|j: int, k: int| 0 <= j < k < actions@.len() ==> actions@[j] < actions@[k],
    {
        legal_slots(&self.players[self.turn].hand, &self.trick)
    }

    fn observation(&self) -> (state: Observation) {
        (self.players[self.turn].hand, copy_of(&self.seen), self.trumps, copy_of(&self.trick))
    }

    /// Plays the card in slot `action` of the player to act, as
    /// `WhistView::play` has it. The reward is always 0.
    fn step(&mut self, action: u8) -> (outcome: Result<(Observation, u8, bool), WhistError>)
        ensures
            outcome is Ok ==> final(self)@ == old(self)@.play(action),
            outcome matches Ok((_, reward, _)) ==> reward == 0,
            outcome matches Err(error) ==> error == if old(self)@.finished() {
                WhistError::DealFinished
            } else {
                WhistError::InvalidAction
            },
    {
        proof {
            lemma_finished(self@);
        }
        if self.dealt && self.seen.len() == 52 {
            proof {
                crate::game::whist::hand::lemma_held_empty(self@.hand());
            }
            return Err(WhistError::DealFinished);
        }
        let card = match playable(&self.players[self.turn].hand, &self.trick, action) {
            Some(card) => card,
            None => {
                return Err(WhistError::InvalidAction);
            },
        };
        proof {
            lemma_play_inv(self@, action);
        }
        let slot: usize = action.into();
        self.players[self.turn].hand[slot] = None;
        self.trick.push(card);
        self.seen.push(card);
        if self.trick.len() != 4 {
            self.turn = (self.turn + 1) % 4;
        } else {
            let position = trick_winner(&self.trick, self.trumps).unwrap();
            let seat = (self.turn + 1 + position) % 4;
            self.players[seat].score += 1;
            self.turn = seat;
            self.trick.clear();
        }
        proof {
            let after = old(self)@.play(action);
            assert(self@.players =~= after.players);
            assert(self@.trick =~= after.trick);
            assert(self@.seen =~= after.seen);
            assert(self@.undealt =~= after.undealt);
            assert(self@ == after);
            lemma_finished(self@);
        }
        let done = self.seen.len() == 52;
        Ok((self.observation(), 0, done))
    }

    /// Begins a new deal: a trump suit is drawn afresh, the deck is shuffled
    /// and dealt, nobody has a trick, and seat 0 leads.
    fn reset(&mut self)
        ensures
            WhistView::fresh(final(self)@.trumps, standard_deck()).deals_to(final(self)@),
    {
        self.trumps = draw_trumps(&mut self.rng);
        self.players = [Player::new(0), Player::new(1), Player::new(2), Player::new(3)];
        self.turn = 0;
        self.trick.clear();
        self.seen.clear();
        self.deck = deck();
        self.dealt = false;
        proof {
            lemma_fresh_inv(self.trumps, standard_deck());
            assert(self@.players =~= WhistView::fresh(self.trumps, standard_deck()).players);
            assert(self@ == WhistView::fresh(self.trumps, standard_deck()));
        }
        let _ = self.deal();
        proof {
            lemma_finished(self@);
        }
    }
}

} // verus!
