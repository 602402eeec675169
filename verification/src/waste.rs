//! The waste, onto which cards are drawn.

use crate::card::{Card, Face};
use crate::error::PileError;
use crate::pile::{all_turned, lemma_place_unconditional, PileBehavior, PileId, PileKind, PileView, Side};
use std::collections::VecDeque;
use vstd::prelude::*;

verus! {

/// The waste: every card in it lies face up, and one card leaves at a time.
#[derive(Debug)]
pub struct Waste {
    id: PileId,
    cards: VecDeque<Card>,
}

/// A waste holding `cards`, as the rules see it.
pub open spec fn waste_of(cards: Seq<Card>) -> PileView {
    PileView { id: PileId::Waste, kind: PileKind::Waste, cards }
}

impl Waste {
    /// A waste holding `cards`, the first at the bottom, all turned face up.
    pub fn new(cards: Vec<Card>) -> (waste: Self)
        ensures
            waste@ == waste_of(all_turned(cards@, Face::Up)),
    {
        let mut waste = Self { id: PileId::Waste, cards: VecDeque::new() };
        proof {
            lemma_place_unconditional(waste@, cards@, Face::Up);
            assert(Seq::<Card>::empty() + all_turned(cards@, Face::Up) =~= all_turned(
                cards@,
                Face::Up,
            ));
        }
        let _ = waste.insert_cards(cards, Side::Top, Face::Up);
        waste
    }
}

/// Every waste follows the rules of its kind.
pub broadcast proof fn lemma_waste_kind(pile: Waste)
    ensures
        (#[trigger] pile@).kind == PileKind::Waste,
{
}

impl Clone for Waste {
    fn clone(&self) -> (r: Self)
        ensures
            r@ == self@,
    {
        let cards = self.cards.clone();
        proof {
            assert(cards@ =~= self.cards@);
        }
        Waste { id: self.id, cards }
    }
}

impl PileBehavior for Waste {
    closed spec fn view(&self) -> PileView {
        PileView { id: self.id, kind: PileKind::Waste, cards: self.cards@ }
    }

    fn id(&self) -> (id: PileId) {
        self.id
    }

    fn len(&self) -> (n: usize) {
        self.cards.len()
    }

    fn max_take_count(&self) -> (n: usize) {
        1
    }

    fn cards(&self) -> (cards: &VecDeque<Card>) {
        &self.cards
    }

    fn cards_mut(&mut self) -> (cards: &mut VecDeque<Card>) {
        &mut self.cards
    }

    fn insert_card(&mut self, card: Card, side: Side, face: Face) -> (r: Result<(), PileError>) {
        let mut card = card;
        card.set_face(Face::Up);
        self.cards.push_back(card);
        Ok(())
    }
}

} // verus!
