//! The standard 52-card deck: four suits of thirteen ranks.

use std::cmp::Ordering;
use vstd::prelude::*;
use vstd::std_specs::cmp::PartialEqSpecImpl;
use vstd::std_specs::convert::FromSpecImpl;
use crate::card::{BaseCard, ConditionalOrd};

verus! {

#[derive(Debug, PartialEq, Eq, Clone, Copy, Structural)]
pub enum Suit {
    Hearts,
    Clubs,
    Diamonds,
    Spades,
}

#[derive(Debug, PartialEq, Eq, Clone, Copy, Structural)]
pub enum Rank {
    Two,
    Three,
    Four,
    Five,
    Six,
    Seven,
    Eight,
    Nine,
    Ten,
    Jack,
    Queen,
    King,
    Ace,
}

impl Suit {
    /// Position of the suit in the fixed order Hearts, Clubs, Diamonds, Spades.
    pub open spec fn ordinal_spec(self) -> nat {
        match self {
            Suit::Hearts => 0,
            Suit::Clubs => 1,
            Suit::Diamonds => 2,
            Suit::Spades => 3,
        }
    }

    pub fn ordinal(self) -> (n: u32)
        ensures
            n == self.ordinal_spec(),
    {
        match self {
            Suit::Hearts => 0,
            Suit::Clubs => 1,
            Suit::Diamonds => 2,
            Suit::Spades => 3,
        }
    }

    pub open spec fn name_spec(self) -> Seq<char> {
        match self {
            Suit::Hearts => "Hearts"@,
            Suit::Clubs => "Clubs"@,
            Suit::Diamonds => "Diamonds"@,
            Suit::Spades => "Spades"@,
        }
    }

    pub fn name(self) -> (s: &'static str)
        ensures
            s@ == self.name_spec(),
    {
        match self {
            Suit::Hearts => "Hearts",
            Suit::Clubs => "Clubs",
            Suit::Diamonds => "Diamonds",
            Suit::Spades => "Spades",
        }
    }
}

impl Rank {
    /// The fixed numeric value of a rank: Two is 2, ..., Ten is 10, Jack 11,
    /// Queen 12, King 13, Ace 14.
    pub open spec fn value_spec(self) -> nat {
        match self {
            Rank::Two => 2,
            Rank::Three => 3,
            Rank::Four => 4,
            Rank::Five => 5,
            Rank::Six => 6,
            Rank::Seven => 7,
            Rank::Eight => 8,
            Rank::Nine => 9,
            Rank::Ten => 10,
            Rank::Jack => 11,
            Rank::Queen => 12,
            Rank::King => 13,
            Rank::Ace => 14,
        }
    }

    pub fn value(&self) -> (v: u8)
        ensures
            v == self.value_spec(),
    {
        match self {
            Rank::Two => 2,
            Rank::Three => 3,
            Rank::Four => 4,
            Rank::Five => 5,
            Rank::Six => 6,
            Rank::Seven => 7,
            Rank::Eight => 8,
            Rank::Nine => 9,
            Rank::Ten => 10,
            Rank::Jack => 11,
            Rank::Queen => 12,
            Rank::King => 13,
            Rank::Ace => 14,
        }
    }

    /// Position of the rank in the fixed order Two < Three < ... < King < Ace.
    pub open spec fn ordinal_spec(self) -> nat {
        (self.value_spec() - 2) as nat
    }

    pub fn ordinal(self) -> (n: u32)
        ensures
            n == self.ordinal_spec(),
    {
        let v: u8 = self.value();
        let n: u8 = v - 2;
        n.into()
    }

    pub open spec fn name_spec(self) -> Seq<char> {
        match self {
            Rank::Two => "Two"@,
            Rank::Three => "Three"@,
            Rank::Four => "Four"@,
            Rank::Five => "Five"@,
            Rank::Six => "Six"@,
            Rank::Seven => "Seven"@,
            Rank::Eight => "Eight"@,
            Rank::Nine => "Nine"@,
            Rank::Ten => "Ten"@,
            Rank::Jack => "Jack"@,
            Rank::Queen => "Queen"@,
            Rank::King => "King"@,
            Rank::Ace => "Ace"@,
        }
    }

    pub fn name(self) -> (s: &'static str)
        ensures
            s@ == self.name_spec(),
    {
        match self {
            Rank::Two => "Two",
            Rank::Three => "Three",
            Rank::Four => "Four",
            Rank::Five => "Five",
            Rank::Six => "Six",
            Rank::Seven => "Seven",
            Rank::Eight => "Eight",
            Rank::Nine => "Nine",
            Rank::Ten => "Ten",
            Rank::Jack => "Jack",
            Rank::Queen => "Queen",
            Rank::King => "King",
            Rank::Ace => "Ace",
        }
    }
}

/// Ranks are ordered by their numeric value, whatever the context.
impl ConditionalOrd for Rank {
    type Info = ();

    open spec fn compare_spec(&self, other: &Self, info: &()) -> Ordering {
        if self.value_spec() < other.value_spec() {
            Ordering::Less
        } else if self.value_spec() == other.value_spec() {
            Ordering::Equal
        } else {
            Ordering::Greater
        }
    }

    fn compare(&self, other: &Self, _info: &()) -> (o: Ordering) {
        let a: u8 = self.value();
        let b: u8 = other.value();
        if a < b {
            Ordering::Less
        } else if a == b {
            Ordering::Equal
        } else {
            Ordering::Greater
        }
    }
}

/// The order of ranks is antisymmetric: one rank is below another exactly
/// when the other is above it, and two ranks compare equal exactly when they
/// are the same rank.
pub proof fn lemma_rank_order_antisymmetric(a: Rank, b: Rank)
    ensures
        a.compare_spec(&b, &()) == Ordering::Less <==> b.compare_spec(&a, &())
            == Ordering::Greater,
        a.compare_spec(&b, &()) == Ordering::Equal <==> a == b,
        a.compare_spec(&b, &()) == Ordering::Equal <==> b.compare_spec(&a, &())
            == Ordering::Equal,
{
}

/// The order of ranks is transitive: a rank that is not above a second,
/// which is not above a third, is not above the third; and it is below the
/// third where either step is strict.
pub proof fn lemma_rank_order_transitive(a: Rank, b: Rank, c: Rank)
    requires
        a.compare_spec(&b, &()) != Ordering::Greater,
        b.compare_spec(&c, &()) != Ordering::Greater,
    ensures
        a.compare_spec(&c, &()) != Ordering::Greater,
        a.compare_spec(&b, &()) == Ordering::Less || b.compare_spec(&c, &()) == Ordering::Less
            ==> a.compare_spec(&c, &()) == Ordering::Less,
{
}

/// The order of ranks runs from Two, the lowest, up to King and then Ace.
pub proof fn lemma_rank_order_chain()
    ensures
        Rank::Two.compare_spec(&Rank::Three, &()) == Ordering::Less,
        Rank::Three.compare_spec(&Rank::Four, &()) == Ordering::Less,
        Rank::Four.compare_spec(&Rank::Five, &()) == Ordering::Less,
        Rank::Five.compare_spec(&Rank::Six, &()) == Ordering::Less,
        Rank::Six.compare_spec(&Rank::Seven, &()) == Ordering::Less,
        Rank::Seven.compare_spec(&Rank::Eight, &()) == Ordering::Less,
        Rank::Eight.compare_spec(&Rank::Nine, &()) == Ordering::Less,
        Rank::Nine.compare_spec(&Rank::Ten, &()) == Ordering::Less,
        Rank::Ten.compare_spec(&Rank::Jack, &()) == Ordering::Less,
        Rank::Jack.compare_spec(&Rank::Queen, &()) == Ordering::Less,
        Rank::Queen.compare_spec(&Rank::King, &()) == Ordering::Less,
        Rank::King.compare_spec(&Rank::Ace, &()) == Ordering::Less,
{
}

/// A card of the standard deck.
pub type Card = BaseCard<Suit, Rank>;

impl PartialEq for Card {
    fn eq(&self, other: &Self) -> (equal: bool) {
        self.rank == other.rank && self.suit == other.suit
    }
}

impl PartialEqSpecImpl for Card {
    open spec fn obeys_eq_spec() -> bool {
        true
    }

    open spec fn eq_spec(&self, other: &Self) -> bool {
        self.rank == other.rank && self.suit == other.suit
    }
}

/// The ordinal of a card: thirteen times the ordinal of its suit, plus the
/// ordinal of its rank. Distinct cards have distinct ordinals below 52.
pub open spec fn card_ordinal(card: Card) -> nat {
    card.suit.ordinal_spec() * 13 + card.rank.ordinal_spec()
}

impl From<Card> for u32 {
    fn from(card: Card) -> (n: u32) {
        card.suit.ordinal() * 13 + card.rank.ordinal()
    }
}

impl FromSpecImpl<Card> for u32 {
    open spec fn obeys_from_spec() -> bool {
        true
    }

    open spec fn from_spec(card: Card) -> u32 {
        card_ordinal(card) as u32
    }
}

/// Two cards with the same ordinal are the same card.
pub proof fn lemma_card_ordinal_injective(a: Card, b: Card)
    requires
        card_ordinal(a) == card_ordinal(b),
    ensures
        a == b,
{
}

impl BaseCard<Suit, Rank> {
    /// The text of a card: its rank, " of ", its suit.
    pub open spec fn label_spec(self) -> Seq<char> {
        self.rank.name_spec() + " of "@ + self.suit.name_spec()
    }

    pub fn label(&self) -> (text: String)
        ensures
            text@ == self.label_spec(),
    {
        let mut text = String::from_str(self.rank.name());
        text.append(" of ");
        text.append(self.suit.name());
        text
    }
}

/// The suit at position `k` of the fixed order of suits.
pub open spec fn suit_at(k: int) -> Suit {
    if k == 0 {
        Suit::Hearts
    } else if k == 1 {
        Suit::Clubs
    } else if k == 2 {
        Suit::Diamonds
    } else {
        Suit::Spades
    }
}

/// The rank at position `k` within one suit of the deck: the ace first, then
/// Two up to King.
pub open spec fn deck_rank(k: int) -> Rank {
    if k == 0 {
        Rank::Ace
    } else if k == 1 {
        Rank::Two
    } else if k == 2 {
        Rank::Three
    } else if k == 3 {
        Rank::Four
    } else if k == 4 {
        Rank::Five
    } else if k == 5 {
        Rank::Six
    } else if k == 6 {
        Rank::Seven
    } else if k == 7 {
        Rank::Eight
    } else if k == 8 {
        Rank::Nine
    } else if k == 9 {
        Rank::Ten
    } else if k == 10 {
        Rank::Jack
    } else if k == 11 {
        Rank::Queen
    } else {
        Rank::King
    }
}

/// The card at position `i` of the deck: suit by suit, thirteen cards each.
pub open spec fn deck_card(i: int) -> Card {
    BaseCard { suit: suit_at(i / 13), rank: deck_rank(i % 13) }
}

/// The position of a card in the deck.
pub open spec fn deck_position(card: Card) -> int {
    card.suit.ordinal_spec() * 13 + (card.rank.value_spec() - 1) % 13
}

/// The canonical deck as a sequence of 52 cards.
pub open spec fn standard_deck() -> Seq<Card> {
    Seq::new(52, |i: int| deck_card(i))
}

/// Every card stands in the canonical deck, at its position and nowhere else.
pub proof fn lemma_deck_position(card: Card)
    ensures
        0 <= deck_position(card) < 52,
        standard_deck()[deck_position(card)] == card,
        forall|i: int| 0 <= i < 52 && standard_deck()[i] == card ==> i == deck_position(card),
{
    assert forall|i: int| 0 <= i < 52 && standard_deck()[i] == card implies i == deck_position(
        card,
    ) by {
        assert(deck_card(i) == card);
        assert(0 <= i / 13 < 4 && 0 <= i % 13 < 13 && i == 13 * (i / 13) + i % 13);
    }
}

/// The canonical deck holds exactly 52 cards, every card there is, none twice.
pub proof fn lemma_standard_deck_complete()
    ensures
        standard_deck().len() == 52,
        standard_deck().no_duplicates(),
        forall|card: Card| standard_deck().contains(card),
{
    assert forall|i: int, j: int|
        0 <= i < 52 && 0 <= j < 52 && i != j implies standard_deck()[i] != standard_deck()[j] by {
        lemma_deck_position(standard_deck()[i]);
    }
    assert forall|card: Card| standard_deck().contains(card) by {
        lemma_deck_position(card);
    }
}

/// The 52 cards of the standard deck in their canonical order.
pub fn deck() -> (cards: [Card; 52])
    ensures
        cards@ == standard_deck(),
{
    let suits = [Suit::Hearts, Suit::Clubs, Suit::Diamonds, Suit::Spades];
    let ranks = [
        Rank::Ace,
        Rank::Two,
        Rank::Three,
        Rank::Four,
        Rank::Five,
        Rank::Six,
        Rank::Seven,
        Rank::Eight,
        Rank::Nine,
        Rank::Ten,
        Rank::Jack,
        Rank::Queen,
        Rank::King,
    ];
    let mut cards = [Card::new(Suit::Hearts, Rank::Ace);52];
    let mut s: usize = 0;
    while s < 4
        invariant
            s <= 4,
            forall|k: int| 0 <= k < 4 ==> suits[k] == suit_at(k),
            forall|k: int| 0 <= k < 13 ==> ranks[k] == deck_rank(k),
            forall|i: int| 0 <= i < 13 * s ==> cards[i] == deck_card(i),
        decreases 4 - s,
    {
        let mut r: usize = 0;
        while r < 13
            invariant
                s < 4,
                r <= 13,
                forall|k: int| 0 <= k < 4 ==> suits[k] == suit_at(k),
                forall|k: int| 0 <= k < 13 ==> ranks[k] == deck_rank(k),
                forall|i: int| 0 <= i < 13 * s + r ==> cards[i] == deck_card(i),
            decreases 13 - r,
        {
            cards[s * 13 + r] = Card::new(suits[s], ranks[r]);
            r += 1;
        }
        s += 1;
    }
    cards
}

} // verus!
