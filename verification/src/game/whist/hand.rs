//! A hand of card slots, and which of its slots may be played to a trick.

use vstd::multiset::Multiset;
use vstd::prelude::*;
use crate::card::standard::{Card, Suit};

verus! {

/// The cards that a hand holds, each slot that holds one counted once.
pub open spec fn held(hand: Seq<Option<Card>>) -> Multiset<Card>
    decreases hand.len(),
{
    if hand.len() == 0 {
        Multiset::empty()
    } else {
        match hand.last() {
            Some(card) => held(hand.drop_last()).insert(card),
            None => held(hand.drop_last()),
        }
    }
}

/// Whether no slot of the hand holds a card.
pub open spec fn is_empty_hand(hand: Seq<Option<Card>>) -> bool {
    forall|i: int| 0 <= i < hand.len() ==> hand[i] is None
}

/// Whether some slot of the hand holds a card of the given suit.
pub open spec fn has_suit(hand: Seq<Option<Card>>, suit: Suit) -> bool {
    exists|i: int| 0 <= i < hand.len() && holds_suit(hand, i, suit)
}

/// Whether slot `i` of the hand holds a card of the given suit.
pub open spec fn holds_suit(hand: Seq<Option<Card>>, i: int, suit: Suit) -> bool {
    hand[i] matches Some(card) && card.suit == suit
}

/// Whether the card in slot `slot` may be played to `trick`: the slot holds a
/// card, and where the trick has been led and the hand can follow the leading
/// suit, the card is of that suit.
pub open spec fn slot_is_legal(hand: Seq<Option<Card>>, trick: Seq<Card>, slot: int) -> bool {
    &&& 0 <= slot < hand.len()
    &&& hand[slot] is Some
    &&& (trick.len() == 0 || !has_suit(hand, trick[0].suit) || holds_suit(
        hand,
        slot,
        trick[0].suit,
    ))
}

/// Filling an empty slot adds the card to what the hand holds.
pub proof fn lemma_held_fill(hand: Seq<Option<Card>>, slot: int, card: Card)
    requires
        0 <= slot < hand.len(),
        hand[slot] is None,
    ensures
        held(hand.update(slot, Some(card))) == held(hand).insert(card),
    decreases hand.len(),
{
    let filled = hand.update(slot, Some(card));
    if slot == hand.len() - 1 {
        assert(filled.drop_last() == hand.drop_last());
    } else {
        lemma_held_fill(hand.drop_last(), slot, card);
        assert(filled.drop_last() == hand.drop_last().update(slot, Some(card)));
        match hand.last() {
            Some(last) => {
                assert(held(hand.drop_last()).insert(card).insert(last) == held(
                    hand.drop_last(),
                ).insert(last).insert(card));
            },
            None => {},
        }
    }
}

/// Emptying a slot takes its card out of what the hand holds.
pub proof fn lemma_held_take(hand: Seq<Option<Card>>, slot: int)
    requires
        0 <= slot < hand.len(),
        hand[slot] is Some,
    ensures
        held(hand) == held(hand.update(slot, None)).insert(hand[slot]->0),
        held(hand).len() == held(hand.update(slot, None)).len() + 1,
{
    let emptied = hand.update(slot, None);
    lemma_held_fill(emptied, slot, hand[slot]->0);
    assert(emptied.update(slot, hand[slot]) == hand);
}

/// A hand holds no card exactly when all its slots are empty.
pub proof fn lemma_held_empty(hand: Seq<Option<Card>>)
    ensures
        held(hand).len() == 0 <==> is_empty_hand(hand),
        held(hand).len() <= hand.len(),
    decreases hand.len(),
{
    if hand.len() > 0 {
        lemma_held_empty(hand.drop_last());
        if is_empty_hand(hand) {
            assert forall|i: int| 0 <= i < hand.drop_last().len() implies hand.drop_last()[i]
                is None by {
                assert(hand.drop_last()[i] == hand[i]);
            }
        }
        if held(hand).len() == 0 {
            assert(hand.last() is None);
            assert forall|i: int| 0 <= i < hand.len() implies hand[i] is None by {
                if i < hand.len() - 1 {
                    assert(hand.drop_last()[i] == hand[i]);
                }
            }
        }
    }
}

/// A hand whose slots all hold a card holds as many cards as it has slots.
pub proof fn lemma_held_full(hand: Seq<Option<Card>>)
    requires
        forall|i: int| 0 <= i < hand.len() ==> hand[i] is Some,
    ensures
        held(hand).len() == hand.len(),
    decreases hand.len(),
{
    if hand.len() > 0 {
        assert forall|i: int| 0 <= i < hand.drop_last().len() implies hand.drop_last()[i]
            is Some by {
            assert(hand.drop_last()[i] == hand[i]);
        }
        lemma_held_full(hand.drop_last());
    }
}

/// Follow suit: a hand that holds the leading suit may play only cards of
/// that suit; a hand that holds none of it, or that leads, may play any card
/// it holds.
pub proof fn lemma_follow_suit(hand: Seq<Option<Card>>, trick: Seq<Card>, slot: int)
    requires
        0 <= slot < hand.len(),
    ensures
        trick.len() > 0 && has_suit(hand, trick[0].suit) ==> (slot_is_legal(hand, trick, slot)
            <==> holds_suit(hand, slot, trick[0].suit)),
        trick.len() == 0 || !has_suit(hand, trick[0].suit) ==> (slot_is_legal(hand, trick, slot)
            <==> hand[slot] is Some),
{
}

/// A hand that holds a card has a slot that may be played, whatever the trick.
pub proof fn lemma_some_slot_is_legal(hand: Seq<Option<Card>>, trick: Seq<Card>)
    requires
        !is_empty_hand(hand),
    ensures
        exists|slot: int| slot_is_legal(hand, trick, slot),
{
    if trick.len() > 0 && has_suit(hand, trick[0].suit) {
        let i = choose|i: int| 0 <= i < hand.len() && holds_suit(hand, i, trick[0].suit);
        assert(slot_is_legal(hand, trick, i));
    } else {
        let i = choose|i: int| 0 <= i < hand.len() && !(hand[i] is None);
        assert(slot_is_legal(hand, trick, i));
    }
}

/// Whether some slot of `hand` holds a card of `suit`.
pub fn holds_any(hand: &[Option<Card>; 13], suit: Suit) -> (found: bool)
    ensures
        found == has_suit(hand@, suit),
{
    let mut found = false;
    let mut i: usize = 0;
    while i < 13
        invariant
            i <= 13,
            found <==> exists|k: int| 0 <= k < i && holds_suit(hand@, k, suit),
        decreases 13 - i,
    {
        match hand[i] {
            Some(card) => {
                if card.suit == suit {
                    found = true;
                    assert(holds_suit(hand@, i as int, suit));
                }
            },
            None => {},
        }
        i += 1;
    }
    found
}

/// Whether a hand playing to `trick` has to follow its leading suit.
fn must_follow(hand: &[Option<Card>; 13], trick: &Vec<Card>) -> (must: bool)
    ensures
        must <==> trick@.len() > 0 && has_suit(hand@, trick@[0].suit),
{
    if trick.len() == 0 {
        false
    } else {
        holds_any(hand, trick[0].suit)
    }
}

/// The card in slot `slot` of `hand`, if it may be played to `trick`.
pub fn playable(hand: &[Option<Card>; 13], trick: &Vec<Card>, slot: u8) -> (card: Option<Card>)
    ensures
        card is Some <==> slot_is_legal(hand@, trick@, slot as int),
        card is Some ==> card == hand@[slot as int],
{
    if slot >= 13 {
        return None;
    }
    match hand[slot as usize] {
        Some(card) => {
            if !must_follow(hand, trick) || card.suit == trick[0].suit {
                Some(card)
            } else {
                None
            }
        },
        None => None,
    }
}

/// The slots of `hand` that may be played to `trick`, in increasing order.
pub fn legal_slots(hand: &[Option<Card>; 13], trick: &Vec<Card>) -> (slots: Vec<u8>)
    ensures
        forall|a: u8|
            #![trigger slots@.contains(a)]
            #![trigger slot_is_legal(hand@, trick@, a as int)]
            slots@.contains(a) <==> slot_is_legal(hand@, trick@, a as int),
        forall|j: int, k: int| 0 <= j < k < slots@.len() ==> slots@[j] < slots@[k],
{
    let mut slots: Vec<u8> = Vec::new();
    let mut i: u8 = 0;
    while i < 13
        invariant
            i <= 13,
            forall|a: u8| slots@.contains(a) <==> a < i && slot_is_legal(hand@, trick@, a as int),
            forall|j: int, k: int| 0 <= j < k < slots@.len() ==> slots@[j] < slots@[k],
            forall|j: int| 0 <= j < slots@.len() ==> slots@[j] < i,
        decreases 13 - i,
    {
        if playable(hand, trick, i).is_some() {
            let ghost before = slots@;
            slots.push(i);
            assert(slots@[slots@.len() - 1] == i);
            assert forall|a: u8| slots@.contains(a) <==> a < i + 1 && slot_is_legal(
                hand@,
                trick@,
                a as int,
            ) by {
                if a == i {
                    assert(slots@.contains(a));
                } else if before.contains(a) {
                    let k = choose|k: int| 0 <= k < before.len() && before[k] == a;
                    assert(slots@[k] == a);
                } else if slots@.contains(a) {
                    let k = choose|k: int| 0 <= k < slots@.len() && slots@[k] == a;
                    assert(before[k] == a);
                }
            }
        }
        i += 1;
    }
    slots
}

} // verus!
