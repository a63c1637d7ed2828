//! Dealing a deck out to four hands.

use vstd::prelude::*;
use crate::card::standard::Card;
use crate::game::whist::hand::{held, lemma_held_fill};

verus! {

/// Deals the 52 cards out in turn: card `i` of `deck` goes to the player at
/// seat `i % 4`, into slot `i / 4`. Every slot is filled, and the four hands
/// together hold the cards of the deck.
pub fn deal_out(deck: &[Card; 52]) -> (hands: [[Option<Card>; 13]; 4])
    ensures
        forall|seat: int, slot: int|
            0 <= seat < 4 && 0 <= slot < 13 ==> (#[trigger] hands[seat][slot]) == Some(
                deck[4 * slot + seat],
            ),
        held(hands[0]@).add(held(hands[1]@)).add(held(hands[2]@)).add(held(hands[3]@))
            == deck@.to_multiset(),
{
    broadcast use vstd::multiset::group_multiset_axioms;
    broadcast use vstd::seq_lib::group_to_multiset_ensures;

    let empty: [Option<Card>; 13] = [None;13];
    let mut hands = [empty;4];
    let mut i: usize = 0;
    proof {
        assert(deck@.take(0) =~= Seq::empty());
        crate::game::whist::hand::lemma_held_empty(empty@);
        assert(held(empty@) =~= vstd::multiset::Multiset::empty());
    }
    while i < 52
        invariant
            i <= 52,
            forall|seat: int, slot: int|
                0 <= seat < 4 && 0 <= slot < 13 ==> (#[trigger] hands[seat][slot]) == if 4 * slot
                    + seat < i {
                    Some(deck[4 * slot + seat])
                } else {
                    None
                },
            held(hands[0]@).add(held(hands[1]@)).add(held(hands[2]@)).add(held(hands[3]@))
                == deck@.take(i as int).to_multiset(),
        decreases 52 - i,
    {
        let ghost before = hands;
        let seat: usize = i % 4;
        let slot: usize = i / 4;
        hands[seat][slot] = Some(deck[i]);
        proof {
            assert(before[seat as int][slot as int] is None);
            lemma_held_fill(before[seat as int]@, slot as int, deck[i as int]);
            assert(hands[seat as int]@ == before[seat as int]@.update(
                slot as int,
                Some(deck[i as int]),
            ));
            assert forall|other: int| 0 <= other < 4 && other != seat implies hands[other]
                == before[other] by {}
            assert(deck@.take(i + 1) =~= deck@.take(i as int).push(deck@[i as int]));
            vstd::seq_lib::to_multiset_build(deck@.take(i as int), deck@[i as int]);
            assert(held(hands[0]@).add(held(hands[1]@)).add(held(hands[2]@)).add(
                held(hands[3]@),
            ) =~= held(before[0]@).add(held(before[1]@)).add(held(before[2]@)).add(
                held(before[3]@),
            ).insert(deck@[i as int]));
        }
        i += 1;
    }
    proof {
        assert(deck@.take(52) =~= deck@);
    }
    hands
}

} // verus!
