//! The state of a deal as the proofs see it, and how a played card changes it.

use vstd::multiset::Multiset;
use vstd::prelude::*;
use crate::card::standard::{lemma_standard_deck_complete, standard_deck, Card, Suit};
use crate::game::whist::hand::{
    held, is_empty_hand, lemma_held_empty, lemma_held_full, lemma_held_take,
    lemma_some_slot_is_legal,
    slot_is_legal,
};
use crate::game::whist::trick::{lemma_holder_in_range, winner};

verus! {

/// A player as the proofs see one.
pub struct PlayerView {
    /// The seat of the player at the table, 0 to 3.
    pub id: nat,
    /// Thirteen slots, each empty or holding one card.
    pub hand: Seq<Option<Card>>,
    /// The tricks the player has won in this deal.
    pub score: nat,
}

/// A deal as the proofs see it.
pub struct WhistView {
    /// The four players, by seat.
    pub players: Seq<PlayerView>,
    /// The seat of the player whose turn it is.
    pub turn: int,
    /// The cards of the trick in progress, in the order played.
    pub trick: Seq<Card>,
    /// All cards played in this deal, in the order played.
    pub seen: Seq<Card>,
    /// The trump suit of the deal, if it has one.
    pub trumps: Option<Suit>,
    /// The cards not dealt yet: the whole deck before the deal, none after.
    pub undealt: Seq<Card>,
}

impl WhistView {
    /// Whether the cards have been dealt.
    pub open spec fn dealt(self) -> bool {
        self.undealt.len() == 0
    }

    /// The hand of the player whose turn it is.
    pub open spec fn hand(self) -> Seq<Option<Card>> {
        self.players[self.turn].hand
    }

    /// Whether the player whose turn it is may play the card in slot `action`.
    pub open spec fn legal(self, action: u8) -> bool {
        slot_is_legal(self.hand(), self.trick, action as int)
    }

    /// Whether the deal is over: the cards were dealt and every hand is empty.
    pub open spec fn finished(self) -> bool {
        &&& self.dealt()
        &&& forall|seat: int|
            0 <= seat < self.players.len() ==> is_empty_hand(#[trigger] self.players[seat].hand)
    }

    /// The cards in the four hands together.
    pub open spec fn in_hands(self) -> Multiset<Card> {
        held(self.players[0].hand).add(held(self.players[1].hand)).add(
            held(self.players[2].hand),
        ).add(held(self.players[3].hand))
    }

    /// The cards of the tricks that are complete.
    pub open spec fn taken(self) -> Seq<Card> {
        self.seen.subrange(0, self.seen.len() - self.trick.len())
    }

    /// The tricks won by the four players together.
    pub open spec fn tricks_won(self) -> nat {
        self.players[0].score + self.players[1].score + self.players[2].score
            + self.players[3].score
    }

    /// Whether the player at `seat` has played to the trick in progress. The
    /// players before the one whose turn it is have, as many as the trick
    /// has cards.
    pub open spec fn has_played(self, seat: int) -> bool {
        1 <= (self.turn - seat + 4) % 4 <= self.trick.len()
    }

    /// How many cards the player at `seat` holds: none before the deal, then
    /// thirteen less one for each trick played to.
    pub open spec fn cards_due(self, seat: int) -> int {
        if !self.dealt() {
            0
        } else if self.has_played(seat) {
            13 - self.seen.len() / 4 - 1
        } else {
            13 - self.seen.len() / 4
        }
    }

    /// What holds of every state that a deal can reach.
    pub open spec fn inv(self) -> bool {
        &&& self.players.len() == 4
        &&& forall|seat: int|
            0 <= seat < 4 ==> {
                &&& (#[trigger] self.players[seat]).id == seat
                &&& self.players[seat].hand.len() == 13
                &&& held(self.players[seat].hand).len() == self.cards_due(seat)
            }
        &&& 0 <= self.turn < 4
        &&& self.trick.len() < 4
        &&& self.trick.len() == self.seen.len() % 4
        &&& self.trick == self.seen.subrange(
            self.seen.len() - self.trick.len(),
            self.seen.len() as int,
        )
        &&& self.tricks_won() == self.seen.len() / 4
        &&& !self.dealt() ==> self.seen.len() == 0
        &&& self.in_hands().add(self.seen.to_multiset()).add(self.undealt.to_multiset())
            == standard_deck().to_multiset()
    }

    /// The state before the deal: four players without cards or tricks, seat
    /// 0 to play, and all cards undealt.
    pub open spec fn fresh(trumps: Option<Suit>, undealt: Seq<Card>) -> WhistView {
        WhistView {
            players: Seq::new(
                4,
                |seat: int|
                    PlayerView { id: seat as nat, hand: Seq::new(13, |i: int| None), score: 0 },
            ),
            turn: 0,
            trick: Seq::empty(),
            seen: Seq::empty(),
            trumps,
            undealt,
        }
    }

    /// Whether `after` is this state with the undealt cards dealt out: every
    /// slot of every hand filled, the hands together holding what was
    /// undealt, and nothing else changed.
    pub open spec fn deals_to(self, after: WhistView) -> bool {
        &&& after.players.len() == self.players.len()
        &&& forall|seat: int|
            0 <= seat < self.players.len() ==> {
                &&& (#[trigger] after.players[seat]).id == self.players[seat].id
                &&& after.players[seat].score == self.players[seat].score
                &&& after.players[seat].hand.len() == self.players[seat].hand.len()
                &&& forall|i: int|
                    0 <= i < after.players[seat].hand.len() ==> after.players[seat].hand[i]
                        is Some
            }
        &&& after.in_hands() == self.undealt.to_multiset()
        &&& after.undealt.len() == 0
        &&& after.turn == self.turn
        &&& after.trick == self.trick
        &&& after.seen == self.seen
        &&& after.trumps == self.trumps
    }

    /// The state after the player whose turn it is has played the card in
    /// slot `action`.
    ///
    /// The card leaves the hand and joins the trick and the history. A trick
    /// of fewer than four cards passes the turn to the next seat. The fourth
    /// card completes the trick: the player of the winning card scores one
    /// trick and has the next turn, and the trick is cleared.
    pub open spec fn play(self, action: u8) -> WhistView {
        let card = self.hand()[action as int]->0;
        let player = self.players[self.turn];
        let players = self.players.update(
            self.turn,
            PlayerView { hand: player.hand.update(action as int, None), ..player },
        );
        let trick = self.trick.push(card);
        let seen = self.seen.push(card);
        if trick.len() < 4 {
            WhistView { players, turn: (self.turn + 1) % 4, trick, seen, ..self }
        } else {
            let seat = self.winning_seat(trick);
            let taker = players[seat];
            WhistView {
                players: players.update(seat, PlayerView { score: taker.score + 1, ..taker }),
                turn: seat,
                trick: Seq::empty(),
                seen,
                ..self
            }
        }
    }

    /// The seat of the player who played the winning card of the complete
    /// trick `trick`, while it is the turn of its fourth player.
    pub open spec fn winning_seat(self, trick: Seq<Card>) -> int {
        (self.turn + 1 + winner(trick, self.trumps)) % 4
    }
}

/// Before the deal, with a full deck undealt, the state is as it should be.
pub proof fn lemma_fresh_inv(trumps: Option<Suit>, undealt: Seq<Card>)
    requires
        undealt.to_multiset() == standard_deck().to_multiset(),
    ensures
        WhistView::fresh(trumps, undealt).inv(),
        !WhistView::fresh(trumps, undealt).dealt(),
        !WhistView::fresh(trumps, undealt).finished(),
{
    broadcast use vstd::multiset::group_multiset_axioms;
    broadcast use vstd::seq_lib::group_to_multiset_ensures;

    let s = WhistView::fresh(trumps, undealt);
    let empty = Seq::new(13, |i: int| None::<Card>);
    lemma_held_empty(empty);
    assert(held(empty) =~= Multiset::empty());
    assert(undealt.len() == 52) by {
        assert(undealt.to_multiset().len() == undealt.len());
        assert(standard_deck().to_multiset().len() == standard_deck().len());
    }
    assert forall|seat: int| 0 <= seat < 4 implies s.players[seat].hand == empty by {}
    assert(s.seen.to_multiset() =~= Multiset::empty());
    assert(s.in_hands().add(s.seen.to_multiset()).add(s.undealt.to_multiset())
        =~= undealt.to_multiset());
    assert(s.trick =~= s.seen.subrange(s.seen.len() - s.trick.len(), s.seen.len() as int));
}

/// Dealing keeps the state as it should be.
pub proof fn lemma_deal_inv(before: WhistView, after: WhistView)
    requires
        before.inv(),
        !before.dealt(),
        before.deals_to(after),
    ensures
        after.inv(),
        after.dealt(),
        !after.finished(),
        after.seen.len() == 0,
{
    broadcast use vstd::multiset::group_multiset_axioms;
    broadcast use vstd::seq_lib::group_to_multiset_ensures;

    assert forall|seat: int| 0 <= seat < 4 implies held(#[trigger] after.players[seat].hand).len()
        == 13 && held(before.players[seat].hand) =~= Multiset::empty() by {
        lemma_held_full(after.players[seat].hand);
        assert(before.players[seat].id == seat);
    }
    assert(after.players[0].id == 0 && after.players[1].id == 1 && after.players[2].id == 2
        && after.players[3].id == 3);
    assert(before.in_hands() =~= Multiset::empty());
    assert(before.seen.to_multiset() =~= Multiset::empty());
    assert(after.undealt =~= Seq::empty());
    assert(after.undealt.to_multiset() =~= Multiset::empty());
    assert(after.in_hands().add(after.seen.to_multiset()).add(after.undealt.to_multiset())
        =~= before.in_hands().add(before.seen.to_multiset()).add(before.undealt.to_multiset()));
    assert forall|seat: int| 0 <= seat < 4 implies (#[trigger] after.players[seat]).id == seat
        && held(after.players[seat].hand).len() == after.cards_due(seat) by {
        assert(before.players[seat].id == seat);
    }
    lemma_held_empty(after.players[0].hand);
    assert(after.players[0].hand[0] is Some);
}

/// Playing a legal card keeps the state as it should be: no card is lost or
/// doubled, each player holds the cards due, and the tricks won are the
/// tricks played.
pub proof fn lemma_play_inv(s: WhistView, action: u8)
    requires
        s.inv(),
        s.legal(action),
    ensures
        s.dealt(),
        s.play(action).inv(),
        s.play(action).dealt(),
        s.play(action).seen.len() == s.seen.len() + 1,
{
    broadcast use vstd::multiset::group_multiset_axioms;
    broadcast use vstd::seq_lib::group_to_multiset_ensures;

    let after = s.play(action);
    let hand = s.hand();
    let card = hand[action as int]->0;
    let emptied = hand.update(action as int, None);
    let trick = s.trick.push(card);
    lemma_held_take(hand, action as int);
    assert(s.players[s.turn].id == s.turn);
    assert(s.dealt());
    if trick.len() == 4 {
        lemma_holder_in_range(trick, s.trumps, 4);
    }
    assert(after.players.len() == 4);
    assert forall|seat: int| 0 <= seat < 4 implies {
        &&& (#[trigger] after.players[seat]).id == seat
        &&& after.players[seat].hand == if seat == s.turn {
            emptied
        } else {
            s.players[seat].hand
        }
        &&& after.players[seat].score == if trick.len() == 4 && seat == after.turn {
            s.players[seat].score + 1
        } else {
            s.players[seat].score
        }
    } by {
        assert(s.players[seat].id == seat);
    }
    assert(after.trick =~= after.seen.subrange(
        after.seen.len() - after.trick.len(),
        after.seen.len() as int,
    ));
    assert forall|seat: int| 0 <= seat < 4 implies held(#[trigger] after.players[seat].hand).len()
        == after.cards_due(seat) by {
        assert(s.players[seat].id == seat);
    }
    assert(after.in_hands().add(after.seen.to_multiset()) =~= s.in_hands().add(
        s.seen.to_multiset(),
    ));
}

/// The four zones of a deal share out the deck: the hands, the trick in
/// progress, the complete tricks and the undealt cards together are the 52
/// cards of the canonical deck, so every card is in exactly one zone, once.
pub proof fn lemma_partition(s: WhistView)
    requires
        s.inv(),
    ensures
        s.seen == s.taken() + s.trick,
        s.in_hands().add(s.trick.to_multiset()).add(s.taken().to_multiset()).add(
            s.undealt.to_multiset(),
        ) == standard_deck().to_multiset(),
        forall|card: Card|
            s.in_hands().count(card) + s.trick.to_multiset().count(card)
                + s.taken().to_multiset().count(card) + s.undealt.to_multiset().count(card)
                == 1,
{
    broadcast use vstd::multiset::group_multiset_axioms;

    assert(s.seen =~= s.taken() + s.trick);
    vstd::seq_lib::lemma_multiset_commutative(s.taken(), s.trick);
    assert(s.in_hands().add(s.trick.to_multiset()).add(s.taken().to_multiset()).add(
        s.undealt.to_multiset(),
    ) =~= s.in_hands().add(s.seen.to_multiset()).add(s.undealt.to_multiset()));
    lemma_standard_deck_complete();
    standard_deck().lemma_multiset_has_no_duplicates();
    assert forall|card: Card|
        s.in_hands().count(card) + s.trick.to_multiset().count(card)
            + s.taken().to_multiset().count(card) + s.undealt.to_multiset().count(card)
            == 1 by {
        assert(standard_deck().contains(card));
        vstd::seq_lib::to_multiset_contains(standard_deck(), card);
        assert(standard_deck().to_multiset().count(card) == 1);
    }
}

/// A deal is over exactly when all 52 cards have been played; the players
/// have then won thirteen tricks between them.
pub proof fn lemma_finished(s: WhistView)
    requires
        s.inv(),
    ensures
        s.seen.len() <= 52,
        s.finished() <==> s.dealt() && s.seen.len() == 52,
        s.finished() ==> s.tricks_won() == 13 && s.trick.len() == 0,
{
    broadcast use vstd::multiset::group_multiset_axioms;
    broadcast use vstd::seq_lib::group_to_multiset_ensures;

    lemma_standard_deck_complete();
    assert(standard_deck().to_multiset().len() == 52);
    assert(s.seen.to_multiset().len() == s.seen.len());
    assert forall|seat: int| 0 <= seat < 4 implies (held(#[trigger] s.players[seat].hand).len()
        == 0 <==> is_empty_hand(s.players[seat].hand)) by {
        lemma_held_empty(s.players[seat].hand);
    }
    assert(s.players[0].id == 0 && s.players[1].id == 1 && s.players[2].id == 2
        && s.players[3].id == 3);
    if s.dealt() {
        assert(s.undealt =~= Seq::empty());
        assert(s.undealt.to_multiset().len() == 0);
        assert(s.in_hands().len() + s.seen.len() == 52);
    }
}

/// While a deal is in progress, the player whose turn it is can play.
pub proof fn lemma_can_play(s: WhistView)
    requires
        s.inv(),
        s.dealt(),
        !s.finished(),
    ensures
        exists|action: u8| s.legal(action),
{
    lemma_finished(s);
    assert(s.players[s.turn].id == s.turn);
    assert(!s.has_played(s.turn));
    assert(held(s.hand()).len() > 0);
    lemma_held_empty(s.hand());
    lemma_some_slot_is_legal(s.hand(), s.trick);
    let slot = choose|slot: int| slot_is_legal(s.hand(), s.trick, slot);
    assert(s.legal(slot as u8));
}

/// Who takes a trick is decided by its four cards, in the order played, the
/// trump suit and the seat of its fourth player, and by nothing else: not by
/// the hands, the scores or the history of the deal.
pub proof fn lemma_same_trick_same_taker(a: WhistView, b: WhistView, x: u8, y: u8)
    requires
        a.inv(),
        b.inv(),
        a.legal(x),
        b.legal(y),
        a.trick.len() == 3,
        a.trick.push(a.hand()[x as int]->0) == b.trick.push(b.hand()[y as int]->0),
        a.trumps == b.trumps,
        a.turn == b.turn,
    ensures
        a.play(x).turn == b.play(y).turn,
        a.play(x).turn == a.winning_seat(a.trick.push(a.hand()[x as int]->0)),
{
    assert(b.trick.push(b.hand()[y as int]->0).len() == 4);
}

} // verus!
