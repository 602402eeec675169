//! What a player can ask of the game.

use crate::pile::PileId;
use crate::text::{decimal, push_decimal};
use vstd::prelude::*;
use vstd::string::StringExecFns;

verus! {

/// A request to the game.
#[derive(Debug, PartialEq, Eq, Structural)]
pub enum Action {
    /// Turn the top card of the stock onto the waste.
    Draw,
    /// Turn the whole waste over into the empty stock.
    Recycle,
    /// Move the top `num_cards` cards of `from` onto `to`.
    Move { num_cards: usize, from: PileId, to: PileId },
    /// Return to the state before the last successful action.
    Undo,
    /// Deal the same game again.
    Reset,
}

impl Clone for Action {
    fn clone(&self) -> (r: Self)
        ensures
            r == *self,
    {
        match self {
            Action::Draw => Action::Draw,
            Action::Recycle => Action::Recycle,
            Action::Move { num_cards, from, to } => Action::Move {
                num_cards: *num_cards,
                from: *from,
                to: *to,
            },
            Action::Undo => Action::Undo,
            Action::Reset => Action::Reset,
        }
    }
}

impl Action {
    /// What is reported when the action was carried out.
    pub open spec fn text(self) -> Seq<char> {
        match self {
            Action::Draw => "Drew a card from stock"@,
            Action::Recycle => "Recycled waste into stock"@,
            Action::Move { num_cards, from, to } => "Moved "@ + decimal(num_cards as nat)
                + " card(s) from "@ + from.text() + " to "@ + to.text(),
            Action::Undo => "Undid last action"@,
            Action::Reset => "Reset game"@,
        }
    }

    /// What is reported when the action was carried out.
    pub fn to_string(&self) -> (text: String)
        ensures
            text@ == self.text(),
    {
        match self {
            Action::Draw => String::from_str("Drew a card from stock"),
            Action::Recycle => String::from_str("Recycled waste into stock"),
            Action::Move { num_cards, from, to } => {
                let mut text = String::from_str("Moved ");
                push_decimal(&mut text, *num_cards);
                text.append(" card(s) from ");
                let from_text = from.to_string();
                text.append(from_text.as_str());
                text.append(" to ");
                let to_text = to.to_string();
                text.append(to_text.as_str());
                text
            },
            Action::Undo => String::from_str("Undid last action"),
            Action::Reset => String::from_str("Reset game"),
        }
    }
}

} // verus!
