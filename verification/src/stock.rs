//! The stock, from which cards are drawn.

use crate::card::{Card, Face};
use crate::error::PileError;
use crate::pile::{all_turned, lemma_place_unconditional, PileBehavior, PileId, PileKind, PileView, Side};
use std::collections::VecDeque;
use vstd::prelude::*;

verus! {

/// The stock: every card in it lies face down, and one card leaves at a time.
#[derive(Debug)]
pub struct Stock {
    id: PileId,
    cards: VecDeque<Card>,
}

/// A stock holding `cards`, as the rules see it.
pub open spec fn stock_of(cards: Seq<Card>) -> PileView {
    PileView { id: PileId::Stock, kind: PileKind::Stock, cards }
}

impl Stock {
    /// A stock holding `cards`, the first at the bottom, all turned face down.
    pub fn new(cards: Vec<Card>) -> (stock: Self)
        ensures
            stock@ == stock_of(all_turned(cards@, Face::Down)),
    {
        let mut stock = Self { id: PileId::Stock, cards: VecDeque::new() };
        proof {
            lemma_place_unconditional(stock@, cards@, Face::Down);
            assert(Seq::<Card>::empty() + all_turned(cards@, Face::Down) =~= all_turned(
                cards@,
                Face::Down,
            ));
        }
        let _ = stock.insert_cards(cards, Side::Top, Face::Down);
        stock
    }
}

/// Every stock follows the rules of its kind.
pub broadcast proof fn lemma_stock_kind(pile: Stock)
    ensures
        (#[trigger] pile@).kind == PileKind::Stock,
{
}

impl Clone for Stock {
    fn clone(&self) -> (r: Self)
        ensures
            r@ == self@,
    {
        let cards = self.cards.clone();
        proof {
            assert(cards@ =~= self.cards@);
        }
        Stock { id: self.id, cards }
    }
}

impl PileBehavior for Stock {
    closed spec fn view(&self) -> PileView {
        PileView { id: self.id, kind: PileKind::Stock, cards: self.cards@ }
    }

    fn id(&self) -> (id: PileId) {
        self.id
    }

    fn len(&self) -> (n: usize) {
        self.cards.len()
    }

    fn max_take_count(&self) -> (n: usize) {
        1
    }

    fn cards(&self) -> (cards: &VecDeque<Card>) {
        &self.cards
    }

    fn cards_mut(&mut self) -> (cards: &mut VecDeque<Card>) {
        &mut self.cards
    }

    fn insert_card(&mut self, card: Card, side: Side, face: Face) -> (r: Result<(), PileError>) {
        let mut card = card;
        card.set_face(Face::Down);
        self.cards.push_back(card);
        Ok(())
    }
}

} // verus!
