//! What the game reports when it refuses an action.

use crate::error::{PileError, PileErrorView};
use crate::pile::PileId;
use crate::text::{debug_form, debug_text, decimal, push_decimal};
use vstd::prelude::*;
use vstd::string::StringExecFns;

verus! {

/// An action on the game that was refused.
#[derive(Debug)]
pub enum GameError {
    /// A draw from an empty stock.
    NoCardToDraw,
    /// A recycle with an empty waste.
    NothingToRecycle,
    /// A recycle while the stock still holds cards.
    StockNotEmpty,
    /// A move the rules never allow, whatever the cards.
    InvalidMove,
    /// An undo with no earlier state to return to.
    UndoUnavailable,
    FoundationFull,
    ColumnNotExist(u8),
    FoundationNotExist(u8),
    /// A pile refused its part of the action.
    PileError(PileError),
    InvalidPile(PileId),
}

/// The mathematical content of a [`GameError`].
pub enum GameErrorView {
    NoCardToDraw,
    NothingToRecycle,
    StockNotEmpty,
    InvalidMove,
    UndoUnavailable,
    FoundationFull,
    ColumnNotExist(u8),
    FoundationNotExist(u8),
    PileError(PileErrorView),
    InvalidPile(PileId),
}

impl View for GameError {
    type V = GameErrorView;

    open spec fn view(&self) -> GameErrorView {
        match *self {
            GameError::NoCardToDraw => GameErrorView::NoCardToDraw,
            GameError::NothingToRecycle => GameErrorView::NothingToRecycle,
            GameError::StockNotEmpty => GameErrorView::StockNotEmpty,
            GameError::InvalidMove => GameErrorView::InvalidMove,
            GameError::UndoUnavailable => GameErrorView::UndoUnavailable,
            GameError::FoundationFull => GameErrorView::FoundationFull,
            GameError::ColumnNotExist(i) => GameErrorView::ColumnNotExist(i),
            GameError::FoundationNotExist(i) => GameErrorView::FoundationNotExist(i),
            GameError::PileError(e) => GameErrorView::PileError(e@),
            GameError::InvalidPile(id) => GameErrorView::InvalidPile(id),
        }
    }
}

impl Clone for GameError {
    fn clone(&self) -> (r: Self)
        ensures
            r@ == self@,
    {
        match self {
            GameError::NoCardToDraw => GameError::NoCardToDraw,
            GameError::NothingToRecycle => GameError::NothingToRecycle,
            GameError::StockNotEmpty => GameError::StockNotEmpty,
            GameError::InvalidMove => GameError::InvalidMove,
            GameError::UndoUnavailable => GameError::UndoUnavailable,
            GameError::FoundationFull => GameError::FoundationFull,
            GameError::ColumnNotExist(i) => GameError::ColumnNotExist(*i),
            GameError::FoundationNotExist(i) => GameError::FoundationNotExist(*i),
            GameError::PileError(e) => GameError::PileError(e.clone()),
            GameError::InvalidPile(id) => GameError::InvalidPile(*id),
        }
    }
}

impl GameErrorView {
    /// The error in words. For an error of a pile the words are those of
    /// its debug form.
    pub open spec fn text(self) -> Seq<char> {
        match self {
            GameErrorView::NoCardToDraw => "Cannot draw: stock is empty"@,
            GameErrorView::NothingToRecycle => "Cannot recycle: waste is empty"@,
            GameErrorView::StockNotEmpty => "Cannot recycle: stock is not empty"@,
            GameErrorView::InvalidMove => "Invalid move according to the rules"@,
            GameErrorView::UndoUnavailable => "Nothing to undo"@,
            GameErrorView::FoundationFull => "Foundation pile is full"@,
            GameErrorView::ColumnNotExist(i) => "Column "@ + decimal(i as nat)
                + " doesn not exist"@,
            GameErrorView::FoundationNotExist(i) => "Foundation "@ + decimal(i as nat)
                + " doesn not exist"@,
            GameErrorView::PileError(e) => debug_form(e),
            GameErrorView::InvalidPile(id) => "Pile "@ + id.text() + " is not valid"@,
        }
    }
}

impl GameError {
    /// The error in words.
    pub fn to_string(&self) -> (text: String)
        ensures
            text@ == self@.text(),
    {
        match self {
            GameError::NoCardToDraw => String::from_str("Cannot draw: stock is empty"),
            GameError::NothingToRecycle => String::from_str("Cannot recycle: waste is empty"),
            GameError::StockNotEmpty => String::from_str("Cannot recycle: stock is not empty"),
            GameError::InvalidMove => String::from_str("Invalid move according to the rules"),
            GameError::UndoUnavailable => String::from_str("Nothing to undo"),
            GameError::FoundationFull => String::from_str("Foundation pile is full"),
            GameError::ColumnNotExist(i) => {
                let mut text = String::from_str("Column ");
                push_decimal(&mut text, *i as usize);
                text.append(" doesn not exist");
                text
            },
            GameError::FoundationNotExist(i) => {
                let mut text = String::from_str("Foundation ");
                push_decimal(&mut text, *i as usize);
                text.append(" doesn not exist");
                text
            },
            GameError::PileError(e) => debug_text(e),
            GameError::InvalidPile(id) => {
                let mut text = String::from_str("Pile ");
                let name = id.to_string();
                text.append(name.as_str());
                text.append(" is not valid");
                text
            },
        }
    }
}

} // verus!
