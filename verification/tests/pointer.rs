use solitaire::action::Action;
use solitaire::card::{all_cards, Card, Face, Rank, Suit};
use solitaire::deal::deal;
use solitaire::interaction::{click_action, dragged_cards, interactible};
use solitaire::pile::{PileBehavior, PileId, Side};

#[test]
fn clicks_on_the_stock() {
    assert_eq!(click_action(PileId::Stock, true), Some(Action::Draw));
    assert_eq!(click_action(PileId::Stock, false), Some(Action::Recycle));
    assert_eq!(click_action(PileId::Waste, true), None);
    assert_eq!(click_action(PileId::Waste, false), None);
    assert_eq!(click_action(PileId::Column(0), true), None);
    assert_eq!(click_action(PileId::Foundation(3), false), None);
}

#[test]
fn cards_that_can_be_grabbed() {
    let cards = vec![
        Card::new(Rank::Five, Suit::Club, Face::Down),
        Card::new(Rank::Nine, Suit::Heart, Face::Up),
        Card::new(Rank::Eight, Suit::Spade, Face::Up),
    ];
    assert!(!interactible(PileId::Column(2), &cards, 0));
    assert!(interactible(PileId::Column(2), &cards, 1));
    assert!(interactible(PileId::Column(2), &cards, 2));
    assert!(!interactible(PileId::Column(2), &cards, 3));
    assert!(!interactible(PileId::Waste, &cards, 0));
    assert!(!interactible(PileId::Waste, &cards, 1));
    assert!(interactible(PileId::Waste, &cards, 2));
    assert!(!interactible(PileId::Stock, &cards, 1));
    assert!(interactible(PileId::Foundation(0), &cards, 2));
    assert!(!interactible(PileId::Stock, &[], 0));
}

#[test]
fn a_drag_picks_up_the_cards_above() {
    let state = deal(&all_cards());
    let column = state.pile(PileId::Column(3)).unwrap().peek_all(Side::Bottom);
    let any = Card::new(Rank::Ace, Suit::Spade, Face::Up);
    assert_eq!(dragged_cards(&state, PileId::Column(3), 3, any), column[3..].to_vec());
    assert_eq!(dragged_cards(&state, PileId::Column(3), 1, any), column[1..].to_vec());
    assert_eq!(dragged_cards(&state, PileId::Column(3), 0, any), column);
    assert_eq!(dragged_cards(&state, PileId::Column(3), 4, any), vec![]);
    assert_eq!(dragged_cards(&state, PileId::Column(3), 9, any), vec![]);
    assert_eq!(dragged_cards(&state, PileId::Column(9), 0, any), vec![]);
    assert_eq!(dragged_cards(&state, PileId::Waste, 5, any), vec![any]);
    assert_eq!(dragged_cards(&state, PileId::Foundation(7), 0, any), vec![any]);
}
