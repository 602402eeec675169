//! What the pointer does to the table: which cards can be grabbed, which
//! cards a drag picks up, and which action a click asks for.

use crate::action::Action;
use crate::card::{Card, Face};
use crate::game_state::{top_cards, GameState, GameStateView};
use crate::pile::{PileBehavior, PileId, Side};
use vstd::prelude::*;

verus! {

/// Whether the card at place `index` of the cards of a pile can be grabbed:
/// in a column every card that lies face up, in any other pile the top card.
pub open spec fn can_grab(pile: PileId, cards: Seq<Card>, index: int) -> bool {
    0 <= index < cards.len() && if pile is Column {
        cards[index].face == Face::Up
    } else {
        index == cards.len() - 1
    }
}

/// Whether the card at place `index` of the cards of a pile can be grabbed.
pub fn interactible(pile: PileId, cards: &[Card], index: usize) -> (b: bool)
    ensures
        b == can_grab(pile, cards@, index as int),
{
    if index >= cards.len() {
        return false;
    }
    match pile {
        PileId::Column(_) => {
            match cards[index].face {
                Face::Up => true,
                Face::Down => false,
            }
        },
        _ => index == cards.len() - 1,
    }
}

/// The action a click asks for: a click on a card of the stock draws, a
/// click on the place of the empty stock recycles, any other click does
/// nothing.
pub open spec fn clicked(pile: PileId, on_card: bool) -> Option<Action> {
    if pile == PileId::Stock {
        if on_card {
            Some(Action::Draw)
        } else {
            Some(Action::Recycle)
        }
    } else {
        None
    }
}

/// The action a click asks for.
pub fn click_action(pile: PileId, on_card: bool) -> (action: Option<Action>)
    ensures
        action == clicked(pile, on_card),
{
    match pile {
        PileId::Stock => if on_card {
            Some(Action::Draw)
        } else {
            Some(Action::Recycle)
        },
        _ => None,
    }
}

/// The cards a drag picks up that starts on `card` at place `index` of a
/// pile, the lowest first: in a column that card and all above it, in any
/// other pile the card alone.
pub open spec fn picked_up(state: GameStateView, pile: PileId, index: nat, card: Card) -> Seq<Card> {
    if pile is Column {
        match state.pile(pile) {
            Ok(column) => if index <= column.cards.len() {
                top_cards(column, (column.cards.len() - index) as nat)
            } else {
                Seq::empty()
            },
            Err(_) => Seq::empty(),
        }
    } else {
        seq![card]
    }
}

/// The cards a drag picks up that starts on `card` at place `index` of a
/// pile.
pub fn dragged_cards(state: &GameState, pile: PileId, index: usize, card: Card) -> (cards: Vec<Card>)
    ensures
        cards@ == picked_up(state@, pile, index as nat, card),
{
    match pile {
        PileId::Column(_) => {
            match state.pile(pile) {
                Ok(column) => {
                    let len = column.len();
                    if index > len {
                        return Vec::new();
                    }
                    let above = column.peek_cards(len - index, Side::Top);
                    let n = above.len();
                    let mut cards: Vec<Card> = Vec::with_capacity(n);
                    let mut i: usize = 0;
                    while i < n
                        invariant
                            i <= n,
                            n == above@.len(),
                            cards@.len() == i,
                            forall|j: int| 0 <= j < i ==> cards@[j] == above@[n - 1 - j],
                        decreases n - i,
                    {
                        cards.push(above[n - 1 - i]);
                        i = i + 1;
                    }
                    proof {
                        assert(cards@ =~= picked_up(state@, pile, index as nat, card));
                    }
                    cards
                },
                Err(_) => Vec::new(),
            }
        },
        _ => {
            let mut cards: Vec<Card> = Vec::new();
            cards.push(card);
            cards
        },
    }
}

} // verus!
