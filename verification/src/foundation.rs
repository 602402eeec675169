//! The foundations, one per suit.

use crate::card::{Card, Face, Rank, Suit};
use crate::error::{CannotAcceptReason, PileError, PileErrorView};
use crate::pile::{PileBehavior, PileId, PileKind, PileView, Side};
use std::collections::VecDeque;
use vstd::prelude::*;
use vstd::string::StringExecFns;

verus! {

/// A foundation: the cards of one suit, built upwards from the ace.
#[derive(Debug, PartialEq, Eq)]
pub struct Foundation {
    id: PileId,
    suit: Suit,
    cards: VecDeque<Card>,
}

/// An empty foundation with the given index and suit, as the rules see it.
pub open spec fn empty_foundation(id: u8, suit: Suit) -> PileView {
    PileView { id: PileId::Foundation(id), kind: PileKind::Foundation(suit), cards: Seq::empty() }
}

impl Foundation {
    /// A foundation of `suit` holding `initial_cards`, which must be what an
    /// empty foundation of that suit accepts card by card.
    pub fn new(id: u8, suit: Suit, initial_cards: Vec<Card>) -> (foundation: Self)
        requires
            empty_foundation(id, suit).place(initial_cards@, Face::Up) is Ok,
        ensures
            Ok::<PileView, PileErrorView>(foundation@) == empty_foundation(id, suit).place(
                initial_cards@,
                Face::Up,
            ),
    {
        let mut foundation = Self { id: PileId::Foundation(id), suit, cards: VecDeque::new() };
        let _ = foundation.insert_cards(initial_cards, Side::Top, Face::Up);
        foundation
    }

    /// The suit this foundation collects.
    pub fn suit(&self) -> (suit: &Suit)
        ensures
            self@.kind == PileKind::Foundation(*suit),
    {
        &self.suit
    }
}

/// Every foundation follows the rules of its kind, for some suit.
pub broadcast proof fn lemma_foundation_kind(pile: Foundation)
    ensures
        (#[trigger] pile@).kind is Foundation,
{
}

impl Clone for Foundation {
    fn clone(&self) -> (r: Self)
        ensures
            r@ == self@,
    {
        let cards = self.cards.clone();
        proof {
            assert(cards@ =~= self.cards@);
        }
        Foundation { id: self.id, suit: self.suit, cards }
    }
}

impl PileBehavior for Foundation {
    closed spec fn view(&self) -> PileView {
        PileView { id: self.id, kind: PileKind::Foundation(self.suit), cards: self.cards@ }
    }

    fn id(&self) -> (id: PileId) {
        self.id
    }

    fn len(&self) -> (n: usize) {
        self.cards.len()
    }

    fn max_take_count(&self) -> (n: usize) {
        1
    }

    fn cards(&self) -> (cards: &VecDeque<Card>) {
        &self.cards
    }

    fn cards_mut(&mut self) -> (cards: &mut VecDeque<Card>) {
        &mut self.cards
    }

    fn insert_card(&mut self, card: Card, side: Side, face: Face) -> (r: Result<(), PileError>) {
        if *card.suit() != self.suit {
            let mut cards: Vec<Card> = Vec::new();
            cards.push(card);
            return Err(
                PileError::CannotAccept {
                    pile: self.id,
                    cards,
                    reason: CannotAcceptReason::WrongSuit {
                        expected: self.suit,
                        found: *card.suit(),
                    },
                },
            );
        }
        let len = self.cards.len();
        if len > 0 {
            let top_card = self.cards[len - 1];
            match top_card.rank().higher() {
                Some(next_rank) => {
                    if *card.rank() != next_rank {
                        let mut cards: Vec<Card> = Vec::new();
                        cards.push(card);
                        return Err(
                            PileError::CannotAccept {
                                pile: self.id,
                                cards,
                                reason: CannotAcceptReason::WrongRank {
                                    expected: next_rank,
                                    found: *card.rank(),
                                },
                            },
                        );
                    }
                },
                None => {
                    let mut cards: Vec<Card> = Vec::new();
                    cards.push(card);
                    return Err(
                        PileError::CannotAccept {
                            pile: self.id,
                            cards,
                            reason: CannotAcceptReason::Other(
                                String::from_str("Top card has no higher rank"),
                            ),
                        },
                    );
                },
            }
        } else {
            if *card.rank() != Rank::Ace {
                let mut cards: Vec<Card> = Vec::new();
                cards.push(card);
                return Err(
                    PileError::CannotAccept {
                        pile: self.id,
                        cards,
                        reason: CannotAcceptReason::WrongRank {
                            expected: Rank::Ace,
                            found: *card.rank(),
                        },
                    },
                );
            }
        }
        let mut card = card;
        card.set_face(Face::Up);
        self.cards.push_back(card);
        Ok(())
    }
}

} // verus!
