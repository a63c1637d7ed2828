//! Higher or lower: one player guesses how the next card ranks.

use rand::rngs::StdRng;
use std::cmp::Ordering;
use std::convert::Infallible;
use vstd::prelude::*;
use vstd::std_specs::convert::FromSpecImpl;
use crate::card::standard::{deck, standard_deck, Card};
use crate::card::ConditionalOrd;
use crate::game::Game;
use crate::random::{seeded, shuffle};

verus! {

/// A guess at the next card.
#[derive(Debug, PartialEq, Eq, Clone, Copy, Structural)]
pub enum Action {
    Higher,
    Lower,
}

impl Action {
    /// The action with the given code: 0 is `Higher`, 1 is `Lower`, and no
    /// other number is an action.
    pub fn from_code(code: u32) -> (action: Option<Action>)
        ensures
            action == match code {
                0 => Some(Action::Higher),
                1 => Some(Action::Lower),
                _ => None,
            },
    {
        match code {
            0 => Some(Action::Higher),
            1 => Some(Action::Lower),
            _ => None,
        }
    }
}

impl From<Action> for u32 {
    fn from(action: Action) -> (code: u32) {
        match action {
            Action::Higher => 0,
            Action::Lower => 1,
        }
    }
}

impl FromSpecImpl<Action> for u32 {
    open spec fn obeys_from_spec() -> bool {
        true
    }

    open spec fn from_spec(action: Action) -> u32 {
        match action {
            Action::Higher => 0,
            Action::Lower => 1,
        }
    }
}

/// Whether `guess` is right of a card `next` drawn after `shown`: the ranks
/// differ in the direction guessed.
pub open spec fn guessed(guess: Action, next: Card, shown: Card) -> bool {
    match guess {
        Action::Higher => next.rank.value_spec() > shown.rank.value_spec(),
        Action::Lower => next.rank.value_spec() < shown.rank.value_spec(),
    }
}

/// A game of higher or lower as the proofs see it.
pub struct HighLowView {
    /// The cards not drawn yet; the last one is drawn next.
    pub deck: Seq<Card>,
    /// The card that lies open.
    pub card: Card,
    /// How many guesses in a row have been right.
    pub score: nat,
}

impl HighLowView {
    /// What holds of every state of a game: the open card and the cards not
    /// drawn are different cards, and the score counts drawn cards only.
    pub open spec fn inv(self) -> bool {
        &&& self.deck.push(self.card).no_duplicates()
        &&& self.score + self.deck.len() <= 51
    }

    /// Whether the game is over: no card is left to draw.
    pub open spec fn finished(self) -> bool {
        self.deck.len() == 0
    }

    /// The state after a guess. With no card left nothing changes. Else the
    /// last card of the deck is drawn and lies open; a right guess adds one
    /// to the score, any other sets it to 0.
    pub open spec fn guess(self, guess: Action) -> HighLowView {
        if self.deck.len() == 0 {
            self
        } else {
            HighLowView {
                deck: self.deck.drop_last(),
                card: self.deck.last(),
                score: if guessed(guess, self.deck.last(), self.card) {
                    self.score + 1
                } else {
                    0
                },
            }
        }
    }
}

/// A guess keeps the state as it should be.
pub proof fn lemma_guess_inv(s: HighLowView, guess: Action)
    requires
        s.inv(),
    ensures
        s.guess(guess).inv(),
{
    if s.deck.len() > 0 {
        let after = s.guess(guess);
        let all = s.deck.push(s.card);
        assert forall|i: int, j: int|
            0 <= i < after.deck.push(after.card).len() && 0 <= j < after.deck.push(
                after.card,
            ).len() && i != j implies after.deck.push(after.card)[i] != after.deck.push(
            after.card,
        )[j] by {
            assert(after.deck.push(after.card)[i] == all[i]);
            assert(after.deck.push(after.card)[j] == all[j]);
        }
    }
}

/// A game of higher or lower.
pub struct HighLow {
    deck: Vec<Card>,
    card: Card,
    score: u8,
    player: u8,
    rng: StdRng,
}

impl View for HighLow {
    type V = HighLowView;

    closed spec fn view(&self) -> HighLowView {
        HighLowView { deck: self.deck@, card: self.card, score: self.score as nat }
    }
}

/// A shuffled deck, as a stack to draw from.
fn shuffled_deck(rng: &mut StdRng) -> (cards: Vec<Card>)
    ensures
        cards@.to_multiset() == standard_deck().to_multiset(),
        cards@.len() == 52,
        cards@.no_duplicates(),
{
    let canonical = deck();
    let mut cards: Vec<Card> = Vec::new();
    let mut i: usize = 0;
    while i < 52
        invariant
            i <= 52,
            canonical@ == standard_deck(),
            cards@ == canonical@.take(i as int),
        decreases 52 - i,
    {
        cards.push(canonical[i]);
        assert(canonical@.take(i + 1) =~= canonical@.take(i as int).push(canonical@[i as int]));
        i += 1;
    }
    assert(canonical@.take(52) =~= canonical@);
    shuffle(cards.as_mut_slice(), rng);
    proof {
        crate::card::standard::lemma_standard_deck_complete();
        vstd::seq_lib::to_multiset_len(cards@);
        vstd::seq_lib::to_multiset_len(standard_deck());
        standard_deck().lemma_multiset_has_no_duplicates();
        cards@.lemma_multiset_has_no_duplicates_conv();
    }
    cards
}

impl HighLow {
    /// A well-formed game is in a state that a game can reach.
    pub proof fn lemma_wf(&self)
        requires
            self.wf(),
        ensures
            self@.inv(),
    {
    }

    /// A new game with its own generator seeded with `seed`: the deck is
    /// shuffled, its top card lies open, and the score is 0.
    pub fn new(seed: u64) -> (game: HighLow)
        ensures
            game.wf(),
            game@.score == 0,
            game@.deck.len() == 51,
            game@.deck.push(game@.card).to_multiset() == standard_deck().to_multiset(),
    {
        let mut rng = seeded(seed);
        let mut cards = shuffled_deck(&mut rng);
        let ghost all = cards@;
        let card = cards.pop().unwrap();
        assert(cards@.push(card) =~= all);
        HighLow { deck: cards, card, score: 0, player: 1, rng }
    }

    /// How many guesses in a row have been right.
    pub fn score(&self) -> (score: u8)
        ensures
            score == self@.score,
    {
        self.score
    }
}

impl Game for HighLow {
    type Action = Action;

    type Player = u8;

    type Reward = u8;

    type State = Card;

    type Error = Infallible;

    closed spec fn wf(&self) -> bool {
        &&& self@.inv()
        &&& self.player == 1
    }

    open spec fn legal(&self, action: Action) -> bool {
        true
    }

    open spec fn finished(&self) -> bool {
        self@.finished()
    }

    open spec fn observed(&self, state: Card) -> bool {
        state == self@.card
    }

    /// The one player of the game, who has the number 1.
    fn current_player(&self) -> (player: &u8)
        ensures
            *player == 1,
    {
        &self.player
    }

    /// Both guesses, `Higher` first.
    fn legal_actions(&self) -> (actions: Vec<Action>)
        ensures
            actions@ == seq![Action::Higher, Action::Lower],
    {
        let mut actions: Vec<Action> = Vec::new();
        actions.push(Action::Higher);
        actions.push(Action::Lower);
        assert(actions@ =~= seq![Action::Higher, Action::Lower]);
        assert forall|action: Action| actions@.contains(action) by {
            assert(actions@[0] == Action::Higher);
            assert(actions@[1] == Action::Lower);
        }
        actions
    }

    fn observation(&self) -> (state: Card) {
        self.card
    }

    /// Takes a guess, as `HighLowView::guess` has it. The reward is the
    /// score after the guess. With no card left the game stays as it is
    /// and says that it is over.
    fn step(&mut self, action: Action) -> (outcome: Result<(Card, u8, bool), Infallible>)
        ensures
            final(self)@ == old(self)@.guess(action),
            outcome matches Ok((_, reward, _)) && reward == final(self)@.score,
    {
        proof {
            lemma_guess_inv(self@, action);
        }
        let next = match self.deck.pop() {
            Some(next) => next,
            None => {
                return Ok((self.card, self.score, true));
            },
        };
        let right = match next.rank.compare(&self.card.rank, &()) {
            Ordering::Greater => action == Action::Higher,
            Ordering::Less => action == Action::Lower,
            Ordering::Equal => false,
        };
        if right {
            self.score += 1;
        } else {
            self.score = 0;
        }
        self.card = next;
        Ok((self.card, self.score, self.deck.len() == 0))
    }

    /// Begins a new game: the deck is shuffled afresh, its top card lies
    /// open, and the score is 0.
    fn reset(&mut self)
        ensures
            final(self)@.score == 0,
            final(self)@.deck.len() == 51,
            final(self)@.deck.push(final(self)@.card).to_multiset()
                == standard_deck().to_multiset(),
    {
        let mut cards = shuffled_deck(&mut self.rng);
        let ghost all = cards@;
        let card = cards.pop().unwrap();
        assert(cards@.push(card) =~= all);
        self.deck = cards;
        self.card = card;
        self.score = 0;
    }
}

} // verus!
