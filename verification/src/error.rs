//! What a pile reports when it refuses an operation.

use crate::card::{Card, Color, Rank, Suit};
use crate::pile::PileId;
use vstd::prelude::*;

verus! {

/// Why a pile does not accept a card.
#[allow(inconsistent_fields)]
#[derive(Debug)]
pub enum CannotAcceptReason {
    WrongSuit { expected: Suit, found: Suit },
    WrongRank { expected: Rank, found: Rank },
    WrongColor { expected: Color, found: Color },
    /// A reason in words, for a rule none of the other variants names.
    Other(String),
}

/// The mathematical content of a [`CannotAcceptReason`].
#[allow(inconsistent_fields)]
pub enum CannotAcceptReasonView {
    WrongSuit { expected: Suit, found: Suit },
    WrongRank { expected: Rank, found: Rank },
    WrongColor { expected: Color, found: Color },
    Other(Seq<char>),
}

impl View for CannotAcceptReason {
    type V = CannotAcceptReasonView;

    open spec fn view(&self) -> CannotAcceptReasonView {
        match *self {
            CannotAcceptReason::WrongSuit { expected, found } => CannotAcceptReasonView::WrongSuit {
                expected,
                found,
            },
            CannotAcceptReason::WrongRank { expected, found } => CannotAcceptReasonView::WrongRank {
                expected,
                found,
            },
            CannotAcceptReason::WrongColor { expected, found } => CannotAcceptReasonView::WrongColor {
                expected,
                found,
            },
            CannotAcceptReason::Other(text) => CannotAcceptReasonView::Other(text@),
        }
    }
}

impl Clone for CannotAcceptReason {
    fn clone(&self) -> (r: Self)
        ensures
            r@ == self@,
    {
        match self {
            CannotAcceptReason::WrongSuit { expected, found } => CannotAcceptReason::WrongSuit {
                expected: *expected,
                found: *found,
            },
            CannotAcceptReason::WrongRank { expected, found } => CannotAcceptReason::WrongRank {
                expected: *expected,
                found: *found,
            },
            CannotAcceptReason::WrongColor { expected, found } => CannotAcceptReason::WrongColor {
                expected: *expected,
                found: *found,
            },
            CannotAcceptReason::Other(text) => CannotAcceptReason::Other(text.clone()),
        }
    }
}

/// An operation on a single pile that was refused.
#[derive(Debug)]
pub enum PileError {
    NotEnoughCards { pile: PileId, requested: usize, available: usize },
    CannotAccept { pile: PileId, cards: Vec<Card>, reason: CannotAcceptReason },
    InvalidTakeZero { pile: PileId },
    InvalidTakeTooMany { pile: PileId, requested: usize, max: usize },
    InvalidPlaceZero { pile: PileId },
    InvalidPlaceTooMany { pile: PileId, attempted: usize, max: usize },
}

/// The mathematical content of a [`PileError`].
pub enum PileErrorView {
    NotEnoughCards { pile: PileId, requested: nat, available: nat },
    CannotAccept { pile: PileId, cards: Seq<Card>, reason: CannotAcceptReasonView },
    InvalidTakeZero { pile: PileId },
    InvalidTakeTooMany { pile: PileId, requested: nat, max: nat },
    InvalidPlaceZero { pile: PileId },
    InvalidPlaceTooMany { pile: PileId, attempted: nat, max: nat },
}

impl View for PileError {
    type V = PileErrorView;

    open spec fn view(&self) -> PileErrorView {
        match *self {
            PileError::NotEnoughCards { pile, requested, available } => {
                PileErrorView::NotEnoughCards {
                    pile,
                    requested: requested as nat,
                    available: available as nat,
                }
            },
            PileError::CannotAccept { pile, cards, reason } => PileErrorView::CannotAccept {
                pile,
                cards: cards@,
                reason: reason@,
            },
            PileError::InvalidTakeZero { pile } => PileErrorView::InvalidTakeZero { pile },
            PileError::InvalidTakeTooMany { pile, requested, max } => {
                PileErrorView::InvalidTakeTooMany {
                    pile,
                    requested: requested as nat,
                    max: max as nat,
                }
            },
            PileError::InvalidPlaceZero { pile } => PileErrorView::InvalidPlaceZero { pile },
            PileError::InvalidPlaceTooMany { pile, attempted, max } => {
                PileErrorView::InvalidPlaceTooMany {
                    pile,
                    attempted: attempted as nat,
                    max: max as nat,
                }
            },
        }
    }
}

impl Clone for PileError {
    fn clone(&self) -> (r: Self)
        ensures
            r@ == self@,
    {
        match self {
            PileError::NotEnoughCards { pile, requested, available } => PileError::NotEnoughCards {
                pile: *pile,
                requested: *requested,
                available: *available,
            },
            PileError::CannotAccept { pile, cards, reason } => {
                let copy = copy_cards(cards);
                PileError::CannotAccept { pile: *pile, cards: copy, reason: reason.clone() }
            },
            PileError::InvalidTakeZero { pile } => PileError::InvalidTakeZero { pile: *pile },
            PileError::InvalidTakeTooMany { pile, requested, max } => {
                PileError::InvalidTakeTooMany { pile: *pile, requested: *requested, max: *max }
            },
            PileError::InvalidPlaceZero { pile } => PileError::InvalidPlaceZero { pile: *pile },
            PileError::InvalidPlaceTooMany { pile, attempted, max } => {
                PileError::InvalidPlaceTooMany { pile: *pile, attempted: *attempted, max: *max }
            },
        }
    }
}

/// A fresh vector holding the same cards in the same order.
pub fn copy_cards(cards: &Vec<Card>) -> (copy: Vec<Card>)
    ensures
        copy@ == cards@,
{
    let mut copy: Vec<Card> = Vec::new();
    let mut i: usize = 0;
    while i < cards.len()
        invariant
            i <= cards.len(),
            copy@ == cards@.subrange(0, i as int),
        decreases cards.len() - i,
    {
        copy.push(cards[i]);
        i = i + 1;
    }
    copy
}

} // verus!
