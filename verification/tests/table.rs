use solitaire::card::{all_cards, Card, Face, Rank, Suit};
use solitaire::column::Column;
use solitaire::deal::deal;
use solitaire::error::{CannotAcceptReason, PileError};
use solitaire::foundation::Foundation;
use solitaire::game_error::GameError;
use solitaire::game_state::{GameState, PileMut};
use solitaire::pile::{PileBehavior, PileId, Side};
use solitaire::stock::Stock;
use solitaire::waste::Waste;
use std::collections::HashMap;

fn card(rank: Rank, suit: Suit, face: Face) -> Card {
    Card::new(rank, suit, face)
}

fn up(rank: Rank, suit: Suit) -> Card {
    Card::new(rank, suit, Face::Up)
}

fn down(rank: Rank, suit: Suit) -> Card {
    Card::new(rank, suit, Face::Down)
}

fn column_of(id: u8, cards: &[Card]) -> Column {
    let mut column = Column::new(id, vec![]);
    for c in cards {
        column.raw_insert_card(*c, Side::Top, *c.face());
    }
    column
}

fn foundation_of(id: u8, suit: Suit, upto: usize) -> Foundation {
    let ranks = [
        Rank::Ace,
        Rank::Two,
        Rank::Three,
        Rank::Four,
        Rank::Five,
        Rank::Six,
        Rank::Seven,
        Rank::Eight,
        Rank::Nine,
        Rank::Ten,
        Rank::Jack,
        Rank::Queen,
        Rank::King,
    ];
    Foundation::new(id, suit, ranks[..upto].iter().map(|r| up(*r, suit)).collect())
}

/// A small table: the columns given, foundations 0 (hearts) and 1 (spades).
fn table(stock: Vec<Card>, waste: Vec<Card>, columns: Vec<Vec<Card>>, hearts: usize, spades: usize) -> GameState {
    let mut cols = HashMap::new();
    for (i, cards) in columns.iter().enumerate() {
        cols.insert(i as u8, column_of(i as u8, cards));
    }
    let mut foundations = HashMap::new();
    foundations.insert(0u8, foundation_of(0, Suit::Heart, hearts));
    foundations.insert(1u8, foundation_of(1, Suit::Spade, spades));
    GameState::new(cols, Stock::new(stock), Waste::new(waste), foundations)
}

fn cards_of(state: &GameState, id: PileId) -> Vec<Card> {
    state.pile(id).unwrap().peek_all(Side::Bottom)
}

fn snapshot(state: &GameState) -> Vec<(PileId, Vec<Card>)> {
    let mut all = vec![
        (PileId::Stock, cards_of(state, PileId::Stock)),
        (PileId::Waste, cards_of(state, PileId::Waste)),
    ];
    for id in state.column_ids() {
        all.push((id, cards_of(state, id)));
    }
    for id in state.foundation_ids() {
        all.push((id, cards_of(state, id)));
    }
    all
}

#[test]
fn ids_are_sorted() {
    let mut cols = HashMap::new();
    for i in [5u8, 0, 200, 3] {
        cols.insert(i, Column::new(i, vec![]));
    }
    let mut foundations = HashMap::new();
    for i in [2u8, 1] {
        foundations.insert(i, Foundation::new(i, Suit::Heart, vec![]));
    }
    let state = GameState::new(cols, Stock::new(vec![]), Waste::new(vec![]), foundations);
    assert_eq!(
        state.column_ids(),
        vec![PileId::Column(0), PileId::Column(3), PileId::Column(5), PileId::Column(200)]
    );
    assert_eq!(state.foundation_ids(), vec![PileId::Foundation(1), PileId::Foundation(2)]);
}

#[test]
fn pile_lookup() {
    let state = table(vec![up(Rank::Ace, Suit::Club)], vec![], vec![vec![up(Rank::King, Suit::Club)]], 0, 0);
    assert_eq!(state.pile(PileId::Stock).unwrap().len(), 1);
    assert_eq!(state.pile(PileId::Stock).unwrap().id(), PileId::Stock);
    assert_eq!(state.pile(PileId::Waste).unwrap().len(), 0);
    assert_eq!(state.pile(PileId::Column(0)).unwrap().id(), PileId::Column(0));
    assert_eq!(state.pile(PileId::Foundation(1)).unwrap().id(), PileId::Foundation(1));
    match state.pile(PileId::Column(1)) {
        Err(GameError::ColumnNotExist(1)) => {}
        _ => panic!("column 1 should not exist"),
    }
    match state.pile(PileId::Foundation(2)) {
        Err(GameError::FoundationNotExist(2)) => {}
        _ => panic!("foundation 2 should not exist"),
    }
}

#[test]
fn pile_mut_reaches_the_pile() {
    let mut state = table(vec![up(Rank::Ace, Suit::Club)], vec![], vec![vec![up(Rank::King, Suit::Club)]], 0, 0);
    match state.pile_mut(PileId::Column(0)) {
        Ok(PileMut::Column(column)) => {
            assert!(column
                .insert_card(up(Rank::Queen, Suit::Heart), Side::Top, Face::Up)
                .is_ok());
        }
        _ => panic!("column 0 should be there"),
    }
    match state.pile_mut(PileId::Stock) {
        Ok(PileMut::Stock(stock)) => {
            assert!(stock.take_card(Side::Top).is_ok());
        }
        _ => panic!("the stock should be there"),
    }
    assert!(matches!(state.pile_mut(PileId::Waste), Ok(PileMut::Waste(_))));
    assert!(matches!(state.pile_mut(PileId::Foundation(0)), Ok(PileMut::Foundation(_))));
    assert!(matches!(state.pile_mut(PileId::Column(9)), Err(GameError::ColumnNotExist(9))));
    assert!(matches!(
        state.pile_mut(PileId::Foundation(9)),
        Err(GameError::FoundationNotExist(9))
    ));
    assert_eq!(
        cards_of(&state, PileId::Column(0)),
        vec![up(Rank::King, Suit::Club), up(Rank::Queen, Suit::Heart)]
    );
    assert_eq!(cards_of(&state, PileId::Stock), vec![]);
}

#[test]
fn draw_moves_top_of_stock_to_waste() {
    let mut state = table(
        vec![up(Rank::Ace, Suit::Club), up(Rank::Two, Suit::Club)],
        vec![up(Rank::Nine, Suit::Heart)],
        vec![],
        0,
        0,
    );
    assert!(state.draw().is_ok());
    assert_eq!(cards_of(&state, PileId::Stock), vec![down(Rank::Ace, Suit::Club)]);
    assert_eq!(
        cards_of(&state, PileId::Waste),
        vec![up(Rank::Nine, Suit::Heart), up(Rank::Two, Suit::Club)]
    );
}

#[test]
fn draw_from_empty_stock() {
    let mut state = table(vec![], vec![up(Rank::Nine, Suit::Heart)], vec![], 0, 0);
    let before = snapshot(&state);
    assert!(matches!(state.draw(), Err(GameError::NoCardToDraw)));
    assert_eq!(snapshot(&state), before);
}

#[test]
fn recycle_turns_the_waste_over() {
    let mut state = table(
        vec![],
        vec![up(Rank::Ace, Suit::Club), up(Rank::Two, Suit::Club), up(Rank::Three, Suit::Club)],
        vec![],
        0,
        0,
    );
    assert!(state.recycle().is_ok());
    assert_eq!(cards_of(&state, PileId::Waste), vec![]);
    assert_eq!(
        cards_of(&state, PileId::Stock),
        vec![down(Rank::Three, Suit::Club), down(Rank::Two, Suit::Club), down(Rank::Ace, Suit::Club)]
    );
    // the card drawn first before is drawn first again
    assert!(state.draw().is_ok());
    assert_eq!(cards_of(&state, PileId::Waste), vec![up(Rank::Ace, Suit::Club)]);
}

#[test]
fn recycle_with_empty_waste() {
    let mut state = table(vec![], vec![], vec![], 0, 0);
    assert!(matches!(state.recycle(), Err(GameError::NothingToRecycle)));
    let mut state = table(vec![up(Rank::Ace, Suit::Club)], vec![], vec![], 0, 0);
    assert!(matches!(state.recycle(), Err(GameError::NothingToRecycle)));
}

#[test]
fn recycle_with_cards_in_stock() {
    let mut state = table(vec![up(Rank::Ace, Suit::Club)], vec![up(Rank::Two, Suit::Club)], vec![], 0, 0);
    let before = snapshot(&state);
    assert!(matches!(state.recycle(), Err(GameError::StockNotEmpty)));
    assert_eq!(snapshot(&state), before);
}

#[test]
fn moves_the_rules_never_allow() {
    let mut state = table(
        vec![up(Rank::King, Suit::Club)],
        vec![up(Rank::King, Suit::Heart)],
        vec![vec![], vec![up(Rank::King, Suit::Spade)]],
        0,
        0,
    );
    let before = snapshot(&state);
    for n in [0usize, 1, 2, 100] {
        assert!(matches!(state.move_cards(n, PileId::Stock, PileId::Column(0)), Err(GameError::InvalidMove)));
        assert!(matches!(state.move_cards(n, PileId::Stock, PileId::Waste), Err(GameError::InvalidMove)));
        assert!(matches!(state.move_cards(n, PileId::Waste, PileId::Stock), Err(GameError::InvalidMove)));
        assert!(matches!(state.move_cards(n, PileId::Column(1), PileId::Stock), Err(GameError::InvalidMove)));
        assert!(matches!(state.move_cards(n, PileId::Column(1), PileId::Waste), Err(GameError::InvalidMove)));
        assert!(matches!(state.move_cards(n, PileId::Foundation(0), PileId::Waste), Err(GameError::InvalidMove)));
        assert!(matches!(state.move_cards(n, PileId::Column(1), PileId::Column(1)), Err(GameError::InvalidMove)));
        assert!(matches!(state.move_cards(n, PileId::Waste, PileId::Waste), Err(GameError::InvalidMove)));
        assert!(matches!(state.move_cards(n, PileId::Column(9), PileId::Column(9)), Err(GameError::InvalidMove)));
    }
    assert_eq!(snapshot(&state), before);
}

#[test]
fn move_from_or_to_a_missing_pile() {
    let mut state = table(vec![], vec![up(Rank::King, Suit::Heart)], vec![vec![]], 0, 0);
    let before = snapshot(&state);
    assert!(matches!(
        state.move_cards(1, PileId::Column(7), PileId::Column(0)),
        Err(GameError::ColumnNotExist(7))
    ));
    assert!(matches!(
        state.move_cards(1, PileId::Foundation(7), PileId::Column(0)),
        Err(GameError::FoundationNotExist(7))
    ));
    // the card taken from the waste is back where it was
    assert!(matches!(
        state.move_cards(1, PileId::Waste, PileId::Column(7)),
        Err(GameError::ColumnNotExist(7))
    ));
    assert!(matches!(
        state.move_cards(1, PileId::Waste, PileId::Foundation(4)),
        Err(GameError::FoundationNotExist(4))
    ));
    assert_eq!(snapshot(&state), before);
    // the source is looked at first
    assert!(matches!(
        state.move_cards(1, PileId::Column(8), PileId::Column(7)),
        Err(GameError::ColumnNotExist(8))
    ));
}

#[test]
fn move_zero_cards() {
    let mut state = table(vec![], vec![up(Rank::King, Suit::Heart)], vec![vec![]], 0, 0);
    match state.move_cards(0, PileId::Waste, PileId::Column(0)) {
        Err(GameError::PileError(PileError::InvalidTakeZero { pile })) => assert_eq!(pile, PileId::Waste),
        other => panic!("unexpected {:?}", other),
    }
}

#[test]
fn move_from_empty_waste() {
    let mut state = table(vec![], vec![], vec![vec![]], 0, 0);
    match state.move_cards(1, PileId::Waste, PileId::Column(0)) {
        Err(GameError::PileError(PileError::NotEnoughCards { pile, requested, available })) => {
            assert_eq!(pile, PileId::Waste);
            assert_eq!(requested, 1);
            assert_eq!(available, 0);
        }
        other => panic!("unexpected {:?}", other),
    }
}

#[test]
fn move_two_from_waste_is_too_many() {
    let mut state = table(
        vec![],
        vec![up(Rank::King, Suit::Heart), up(Rank::King, Suit::Spade)],
        vec![vec![]],
        0,
        0,
    );
    match state.move_cards(2, PileId::Waste, PileId::Column(0)) {
        Err(GameError::PileError(PileError::InvalidTakeTooMany { pile, requested, max })) => {
            assert_eq!(pile, PileId::Waste);
            assert_eq!(requested, 2);
            assert_eq!(max, 1);
        }
        other => panic!("unexpected {:?}", other),
    }
}

#[test]
fn move_more_than_the_face_up_run() {
    let mut state = table(
        vec![],
        vec![],
        vec![
            vec![down(Rank::Two, Suit::Club), up(Rank::Queen, Suit::Heart), up(Rank::Jack, Suit::Spade)],
            vec![up(Rank::King, Suit::Spade)],
        ],
        0,
        0,
    );
    let before = snapshot(&state);
    match state.move_cards(3, PileId::Column(0), PileId::Column(1)) {
        Err(GameError::PileError(PileError::InvalidTakeTooMany { pile, requested, max })) => {
            assert_eq!(pile, PileId::Column(0));
            assert_eq!(requested, 3);
            assert_eq!(max, 2);
        }
        other => panic!("unexpected {:?}", other),
    }
    assert_eq!(snapshot(&state), before);
}

#[test]
fn waste_to_foundation_takes_the_next_card_of_the_suit() {
    // empty foundation of hearts: only the ace of hearts
    let mut state = table(vec![], vec![up(Rank::Ace, Suit::Heart)], vec![], 0, 0);
    match state.move_cards(1, PileId::Waste, PileId::Foundation(1)) {
        Err(GameError::PileError(PileError::CannotAccept { pile, cards, reason })) => {
            assert_eq!(pile, PileId::Foundation(1));
            assert_eq!(cards, vec![up(Rank::Ace, Suit::Heart)]);
            assert!(matches!(
                reason,
                CannotAcceptReason::WrongSuit { expected: Suit::Spade, found: Suit::Heart }
            ));
        }
        other => panic!("unexpected {:?}", other),
    }
    assert_eq!(cards_of(&state, PileId::Waste), vec![up(Rank::Ace, Suit::Heart)]);
    assert!(state.move_cards(1, PileId::Waste, PileId::Foundation(0)).is_ok());
    assert_eq!(cards_of(&state, PileId::Waste), vec![]);
    assert_eq!(cards_of(&state, PileId::Foundation(0)), vec![up(Rank::Ace, Suit::Heart)]);

    // a foundation that holds cards: only the next rank
    let mut state = table(vec![], vec![up(Rank::Four, Suit::Spade)], vec![], 0, 2);
    match state.move_cards(1, PileId::Waste, PileId::Foundation(1)) {
        Err(GameError::PileError(PileError::CannotAccept {
            reason: CannotAcceptReason::WrongRank { expected, found },
            ..
        })) => {
            assert_eq!(expected, Rank::Three);
            assert_eq!(found, Rank::Four);
        }
        other => panic!("unexpected {:?}", other),
    }
    let mut state = table(vec![], vec![up(Rank::Three, Suit::Spade)], vec![], 0, 2);
    assert!(state.move_cards(1, PileId::Waste, PileId::Foundation(1)).is_ok());
    assert_eq!(
        cards_of(&state, PileId::Foundation(1)),
        vec![up(Rank::Ace, Suit::Spade), up(Rank::Two, Suit::Spade), up(Rank::Three, Suit::Spade)]
    );
}

#[test]
fn three_cards_between_columns() {
    let run = vec![
        down(Rank::Two, Suit::Club),
        up(Rank::Nine, Suit::Heart),
        up(Rank::Eight, Suit::Spade),
        up(Rank::Seven, Suit::Diamond),
    ];
    // onto the ten of spades
    let mut state = table(vec![], vec![], vec![run.clone(), vec![up(Rank::Ten, Suit::Spade)]], 0, 0);
    assert!(state.move_cards(3, PileId::Column(0), PileId::Column(1)).is_ok());
    assert_eq!(cards_of(&state, PileId::Column(0)), vec![up(Rank::Two, Suit::Club)]);
    assert_eq!(
        cards_of(&state, PileId::Column(1)),
        vec![
            up(Rank::Ten, Suit::Spade),
            up(Rank::Nine, Suit::Heart),
            up(Rank::Eight, Suit::Spade),
            up(Rank::Seven, Suit::Diamond)
        ]
    );
    // not onto the ten of hearts
    let mut state = table(vec![], vec![], vec![run.clone(), vec![up(Rank::Ten, Suit::Heart)]], 0, 0);
    let before = snapshot(&state);
    match state.move_cards(3, PileId::Column(0), PileId::Column(1)) {
        Err(GameError::PileError(PileError::CannotAccept {
            pile,
            cards,
            reason: CannotAcceptReason::WrongColor { .. },
        })) => {
            assert_eq!(pile, PileId::Column(1));
            assert_eq!(cards, vec![up(Rank::Nine, Suit::Heart)]);
        }
        other => panic!("unexpected {:?}", other),
    }
    assert_eq!(snapshot(&state), before);
    // not onto an empty column: the lowest card is no king
    let mut state = table(vec![], vec![], vec![run.clone(), vec![]], 0, 0);
    let before = snapshot(&state);
    assert!(matches!(
        state.move_cards(3, PileId::Column(0), PileId::Column(1)),
        Err(GameError::PileError(PileError::CannotAccept {
            reason: CannotAcceptReason::WrongRank { expected: Rank::King, found: Rank::Nine },
            ..
        }))
    ));
    assert_eq!(snapshot(&state), before);
    // a king with its run onto an empty column
    let kings = vec![
        down(Rank::Two, Suit::Club),
        up(Rank::King, Suit::Heart),
        up(Rank::Queen, Suit::Spade),
        up(Rank::Jack, Suit::Diamond),
    ];
    let mut state = table(vec![], vec![], vec![kings, vec![]], 0, 0);
    assert!(state.move_cards(3, PileId::Column(0), PileId::Column(1)).is_ok());
    assert_eq!(cards_of(&state, PileId::Column(0)), vec![up(Rank::Two, Suit::Club)]);
    assert_eq!(cards_of(&state, PileId::Column(1)).len(), 3);
}

#[test]
fn a_refused_move_of_a_stack_leaves_no_card_behind() {
    // the ace would go onto the foundation, the card above it would not
    let mut state = table(
        vec![],
        vec![],
        vec![vec![down(Rank::Five, Suit::Club), up(Rank::Two, Suit::Spade), up(Rank::Ace, Suit::Heart)]],
        1,
        1,
    );
    let before = snapshot(&state);
    match state.move_cards(2, PileId::Column(0), PileId::Foundation(1)) {
        Err(GameError::PileError(PileError::CannotAccept { pile, cards, reason })) => {
            assert_eq!(pile, PileId::Foundation(1));
            assert_eq!(cards, vec![up(Rank::Ace, Suit::Heart)]);
            assert!(matches!(reason, CannotAcceptReason::WrongSuit { .. }));
        }
        other => panic!("unexpected {:?}", other),
    }
    assert_eq!(snapshot(&state), before);
}

#[test]
fn move_reveals_the_new_top_of_a_column() {
    let mut state = table(
        vec![],
        vec![],
        vec![vec![down(Rank::Five, Suit::Club), up(Rank::Ace, Suit::Heart)]],
        0,
        0,
    );
    assert!(state.move_cards(1, PileId::Column(0), PileId::Foundation(0)).is_ok());
    assert_eq!(cards_of(&state, PileId::Column(0)), vec![up(Rank::Five, Suit::Club)]);
    assert_eq!(cards_of(&state, PileId::Foundation(0)), vec![up(Rank::Ace, Suit::Heart)]);
}

#[test]
fn foundation_to_column() {
    let mut state = table(vec![], vec![], vec![vec![up(Rank::Three, Suit::Club)]], 2, 0);
    assert!(state.move_cards(1, PileId::Foundation(0), PileId::Column(0)).is_ok());
    assert_eq!(cards_of(&state, PileId::Foundation(0)), vec![up(Rank::Ace, Suit::Heart)]);
    assert_eq!(
        cards_of(&state, PileId::Column(0)),
        vec![up(Rank::Three, Suit::Club), up(Rank::Two, Suit::Heart)]
    );
}

#[test]
fn is_won_needs_empty_stock_waste_and_columns() {
    assert!(table(vec![], vec![], vec![vec![], vec![]], 13, 13).is_won());
    assert!(table(vec![], vec![], vec![], 0, 0).is_won());
    assert!(!table(vec![up(Rank::Ace, Suit::Club)], vec![], vec![vec![]], 0, 0).is_won());
    assert!(!table(vec![], vec![up(Rank::Ace, Suit::Club)], vec![vec![]], 0, 0).is_won());
    assert!(!table(vec![], vec![], vec![vec![], vec![up(Rank::Ace, Suit::Club)]], 0, 0).is_won());
}

#[test]
fn deal_of_a_new_deck() {
    let deck = all_cards();
    let state = deal(&deck);
    assert_eq!(
        state.column_ids(),
        (0u8..7).map(PileId::Column).collect::<Vec<PileId>>()
    );
    assert_eq!(
        state.foundation_ids(),
        (0u8..4).map(PileId::Foundation).collect::<Vec<PileId>>()
    );
    // column 0 holds the first card of the deck, face up
    assert_eq!(cards_of(&state, PileId::Column(0)), vec![up(Rank::Ace, Suit::Heart)]);
    // column 1 holds the next two, the first of them on top
    assert_eq!(
        cards_of(&state, PileId::Column(1)),
        vec![down(Rank::Three, Suit::Heart), up(Rank::Two, Suit::Heart)]
    );
    // column 2: cards 3, 4, 5 of the deck
    assert_eq!(
        cards_of(&state, PileId::Column(2)),
        vec![down(Rank::Six, Suit::Heart), down(Rank::Five, Suit::Heart), up(Rank::Four, Suit::Heart)]
    );
    let last = cards_of(&state, PileId::Column(6));
    assert_eq!(last.len(), 7);
    assert_eq!(last[6], up(deck[21].rank, deck[21].suit));
    assert_eq!(last[0], down(deck[27].rank, deck[27].suit));
    let stock = cards_of(&state, PileId::Stock);
    assert_eq!(stock.len(), 24);
    assert_eq!(stock[0], down(deck[28].rank, deck[28].suit));
    assert_eq!(stock[23], down(Rank::King, Suit::Spade));
    assert!(cards_of(&state, PileId::Waste).is_empty());
    assert_eq!(*state.foundations[&0].suit(), Suit::Heart);
    assert_eq!(*state.foundations[&1].suit(), Suit::Spade);
    assert_eq!(*state.foundations[&2].suit(), Suit::Club);
    assert_eq!(*state.foundations[&3].suit(), Suit::Diamond);
    assert!(!state.is_won());
}

#[test]
fn deal_of_a_short_deck_leaves_the_stock_empty() {
    let deck: Vec<Card> = all_cards().into_iter().take(28).collect();
    let state = deal(&deck);
    assert!(cards_of(&state, PileId::Stock).is_empty());
    assert_eq!(cards_of(&state, PileId::Column(6)).len(), 7);
}

#[test]
fn clone_is_independent() {
    let mut state = table(vec![up(Rank::Ace, Suit::Club)], vec![], vec![vec![up(Rank::King, Suit::Club)]], 0, 0);
    let copy = state.clone();
    assert!(state.draw().is_ok());
    assert_eq!(cards_of(&copy, PileId::Stock).len(), 1);
    assert_eq!(cards_of(&state, PileId::Stock).len(), 0);
    assert_eq!(cards_of(&copy, PileId::Column(0)), cards_of(&state, PileId::Column(0)));
}

#[test]
fn game_error_in_words() {
    assert_eq!(GameError::NoCardToDraw.to_string(), "Cannot draw: stock is empty");
    assert_eq!(GameError::NothingToRecycle.to_string(), "Cannot recycle: waste is empty");
    assert_eq!(GameError::StockNotEmpty.to_string(), "Cannot recycle: stock is not empty");
    assert_eq!(GameError::InvalidMove.to_string(), "Invalid move according to the rules");
    assert_eq!(GameError::UndoUnavailable.to_string(), "Nothing to undo");
    assert_eq!(GameError::FoundationFull.to_string(), "Foundation pile is full");
    assert_eq!(GameError::ColumnNotExist(12).to_string(), "Column 12 doesn not exist");
    assert_eq!(GameError::FoundationNotExist(0).to_string(), "Foundation 0 doesn not exist");
    assert_eq!(GameError::InvalidPile(PileId::Column(9)).to_string(), "Pile column 9 is not valid");
    let e = GameError::PileError(PileError::InvalidTakeZero { pile: PileId::Waste });
    assert_eq!(e.to_string(), "InvalidTakeZero { pile: Waste }");
    let e = GameError::PileError(PileError::CannotAccept {
        pile: PileId::Column(1),
        cards: vec![card(Rank::Ace, Suit::Heart, Face::Up)],
        reason: CannotAcceptReason::Other("no \"room\"".to_string()),
    });
    assert_eq!(
        e.to_string(),
        "CannotAccept { pile: Column(1), cards: [Card { rank: Ace, suit: Heart, face: Up }], \
         reason: Other(\"no \\\"room\\\"\") }"
    );
    let _ = card(Rank::Ace, Suit::Club, Face::Up);
}
