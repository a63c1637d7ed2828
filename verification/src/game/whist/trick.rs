//! The rules of one trick: which card takes it, and which cards may be played.

use std::cmp::Ordering;
use vstd::prelude::*;
use crate::card::standard::{Card, Suit};
use crate::card::ConditionalOrd;
use crate::game::whist::effective_trump;

verus! {

/// Whether `card` compares greater than `other` in a trick led with `leading`.
pub open spec fn beats(card: Card, other: Card, leading: Suit, trumps: Option<Suit>) -> bool {
    card.compare_spec(&other, &(leading, trumps)) == Ordering::Greater
}

/// Among the first `n` cards of a trick, the position of the card that holds
/// the trick: the first card, until a later card beats the holder.
pub open spec fn holder(trick: Seq<Card>, trumps: Option<Suit>, n: nat) -> int
    decreases n,
{
    if n <= 1 {
        0
    } else {
        let before = holder(trick, trumps, (n - 1) as nat);
        if beats(trick[n - 1], trick[before], trick[0].suit, trumps) {
            n - 1
        } else {
            before
        }
    }
}

/// The position in the trick of the card that wins it. The cards are compared
/// in the order of play, each against the card that holds the trick so far;
/// the trick is never sorted, since the comparison is not an order.
pub open spec fn winner(trick: Seq<Card>, trumps: Option<Suit>) -> int {
    holder(trick, trumps, trick.len())
}

/// The holder is one of the cards looked at.
pub proof fn lemma_holder_in_range(trick: Seq<Card>, trumps: Option<Suit>, n: nat)
    ensures
        0 <= holder(trick, trumps, n),
        n >= 1 ==> holder(trick, trumps, n) < n,
    decreases n,
{
    if n > 1 {
        lemma_holder_in_range(trick, trumps, (n - 1) as nat);
    }
}

/// Whether `card` is of the effective trump suit of the trick.
pub open spec fn is_trump(trick: Seq<Card>, trumps: Option<Suit>, card: Card) -> bool {
    card.suit == effective_trump(trick[0].suit, trumps)
}

/// Among the first `n` cards: once a card of the effective trump suit has
/// been played, the holder is the highest card of that suit.
pub proof fn lemma_holder_is_highest_trump(trick: Seq<Card>, trumps: Option<Suit>, n: nat)
    requires
        1 <= n <= trick.len(),
        exists|i: int| 0 <= i < n && is_trump(trick, trumps, trick[i]),
    ensures
        is_trump(trick, trumps, trick[holder(trick, trumps, n)]),
        forall|i: int|
            0 <= i < n && is_trump(trick, trumps, #[trigger] trick[i])
                ==> trick[i].rank.value_spec() <= trick[holder(
                trick,
                trumps,
                n,
            )].rank.value_spec(),
    decreases n,
{
    lemma_holder_in_range(trick, trumps, n);
    if n > 1 {
        let m = (n - 1) as nat;
        lemma_holder_in_range(trick, trumps, m);
        if exists|i: int| 0 <= i < m && is_trump(trick, trumps, trick[i]) {
            lemma_holder_is_highest_trump(trick, trumps, m);
        }
    }
}

/// Among the first `n` cards, all of one suit, the holder is the highest.
pub proof fn lemma_holder_is_highest_of_suit(trick: Seq<Card>, trumps: Option<Suit>, n: nat)
    requires
        1 <= n <= trick.len(),
        forall|i: int| 0 <= i < n ==> (#[trigger] trick[i]).suit == trick[0].suit,
    ensures
        forall|i: int|
            0 <= i < n ==> (#[trigger] trick[i]).rank.value_spec() <= trick[holder(
                trick,
                trumps,
                n,
            )].rank.value_spec(),
    decreases n,
{
    lemma_holder_in_range(trick, trumps, n);
    if n > 1 {
        let m = (n - 1) as nat;
        lemma_holder_in_range(trick, trumps, m);
        lemma_holder_is_highest_of_suit(trick, trumps, m);
    }
}

/// A trick to which a card of the effective trump suit has been played goes
/// to the highest card of that suit. Where the cards of the trick differ
/// from each other, that card beats every other card of the trick, and is
/// the only one that does.
pub proof fn lemma_highest_trump_wins(trick: Seq<Card>, trumps: Option<Suit>)
    requires
        exists|i: int| 0 <= i < trick.len() && is_trump(trick, trumps, trick[i]),
    ensures
        0 <= winner(trick, trumps) < trick.len(),
        is_trump(trick, trumps, trick[winner(trick, trumps)]),
        forall|i: int|
            0 <= i < trick.len() && is_trump(trick, trumps, #[trigger] trick[i])
                ==> trick[i].rank.value_spec() <= trick[winner(trick, trumps)].rank.value_spec(),
        trick.no_duplicates() ==> forall|i: int|
            0 <= i < trick.len() && i != winner(trick, trumps) ==> beats(
                trick[winner(trick, trumps)],
                #[trigger] trick[i],
                trick[0].suit,
                trumps,
            ) && !beats(trick[i], trick[winner(trick, trumps)], trick[0].suit, trumps),
{
    lemma_holder_in_range(trick, trumps, trick.len());
    lemma_holder_is_highest_trump(trick, trumps, trick.len());
    let w = winner(trick, trumps);
    if trick.no_duplicates() {
        assert forall|i: int| 0 <= i < trick.len() && i != w implies beats(
            trick[w],
            #[trigger] trick[i],
            trick[0].suit,
            trumps,
        ) && !beats(trick[i], trick[w], trick[0].suit, trumps) by {
            assert(trick[i] != trick[w]);
        }
    }
}

/// A trick whose cards are all of one suit goes to the highest of them.
pub proof fn lemma_highest_of_suit_wins(trick: Seq<Card>, trumps: Option<Suit>)
    requires
        trick.len() > 0,
        forall|i: int| 0 <= i < trick.len() ==> (#[trigger] trick[i]).suit == trick[0].suit,
    ensures
        0 <= winner(trick, trumps) < trick.len(),
        forall|i: int|
            0 <= i < trick.len() ==> (#[trigger] trick[i]).rank.value_spec() <= trick[winner(
                trick,
                trumps,
            )].rank.value_spec(),
{
    lemma_holder_in_range(trick, trumps, trick.len());
    lemma_holder_is_highest_of_suit(trick, trumps, trick.len());
}

fn card_beats(card: &Card, other: &Card, leading: Suit, trumps: Option<Suit>) -> (b: bool)
    ensures
        b == beats(*card, *other, leading, trumps),
{
    match card.compare(other, &(leading, trumps)) {
        Ordering::Greater => true,
        _ => false,
    }
}

/// The position of the winning card of `trick`, or `None` for an empty trick.
pub fn trick_winner(trick: &Vec<Card>, trumps: Option<Suit>) -> (w: Option<usize>)
    ensures
        trick@.len() == 0 ==> w is None,
        trick@.len() > 0 ==> w == Some(winner(trick@, trumps) as usize),
        trick@.len() > 0 ==> 0 <= winner(trick@, trumps) < trick@.len(),
{
    if trick.len() == 0 {
        return None;
    }
    let leading = trick[0].suit;
    let mut best: usize = 0;
    let mut i: usize = 1;
    while i < trick.len()
        invariant
            1 <= i <= trick.len(),
            best < i,
            leading == trick@[0].suit,
            best == holder(trick@, trumps, i as nat),
        decreases trick.len() - i,
    {
        if card_beats(&trick[i], &trick[best], leading, trumps) {
            best = i;
        }
        i += 1;
    }
    Some(best)
}

} // verus!
