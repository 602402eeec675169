use solitaire::action::Action;
use solitaire::card::{all_cards, Card, Face};
use solitaire::deal::deal;
use solitaire::game::Game;
use solitaire::game_error::GameError;
use solitaire::game_state::GameState;
use solitaire::pile::{PileBehavior, PileId, Side};

fn cards_of(state: &GameState, id: PileId) -> Vec<Card> {
    state.pile(id).unwrap().peek_all(Side::Bottom)
}

fn snapshot(state: &GameState) -> Vec<(PileId, Vec<Card>)> {
    let mut all = vec![
        (PileId::Stock, cards_of(state, PileId::Stock)),
        (PileId::Waste, cards_of(state, PileId::Waste)),
    ];
    for id in state.column_ids() {
        all.push((id, cards_of(state, id)));
    }
    for id in state.foundation_ids() {
        all.push((id, cards_of(state, id)));
    }
    all
}

fn all_on_table(state: &GameState) -> Vec<Card> {
    snapshot(state).into_iter().flat_map(|(_, cards)| cards).collect()
}

fn assert_full_deck(state: &GameState) {
    let on_table = all_on_table(state);
    assert_eq!(on_table.len(), 52);
    for wanted in all_cards() {
        let n = on_table
            .iter()
            .filter(|c| c.rank() == wanted.rank() && c.suit() == wanted.suit())
            .count();
        assert_eq!(n, 1);
    }
}

fn assert_in_order(state: &GameState) {
    for c in cards_of(state, PileId::Stock) {
        assert_eq!(*c.face(), Face::Down);
    }
    for c in cards_of(state, PileId::Waste) {
        assert_eq!(*c.face(), Face::Up);
    }
    for id in state.column_ids() {
        let cards = cards_of(state, id);
        let mut seen_up = false;
        for c in cards.iter() {
            if *c.face() == Face::Up {
                seen_up = true;
            } else {
                assert!(!seen_up);
            }
        }
        if !cards.is_empty() {
            assert_eq!(*cards[cards.len() - 1].face(), Face::Up);
        }
    }
    for id in state.foundation_ids() {
        let ranks = all_cards();
        let cards = cards_of(state, id);
        for (i, c) in cards.iter().enumerate() {
            assert_eq!(c.rank(), ranks[i].rank());
            assert_eq!(*c.face(), Face::Up);
            assert_eq!(c.suit(), cards[0].suit());
        }
    }
}

#[test]
fn new_session_with_seed_one() {
    let game = Game::new(Some(1));
    assert_eq!(game.seed(), 1);
    let state = &game.state;
    for i in 0u8..7 {
        let cards = cards_of(state, PileId::Column(i));
        assert_eq!(cards.len(), i as usize + 1);
        for (j, c) in cards.iter().enumerate() {
            let expected = if j == i as usize { Face::Up } else { Face::Down };
            assert_eq!(*c.face(), expected);
        }
    }
    assert_eq!(cards_of(state, PileId::Column(0)).len(), 1);
    assert_eq!(cards_of(state, PileId::Column(6)).len(), 7);
    assert_eq!(cards_of(state, PileId::Stock).len(), 24);
    assert_eq!(cards_of(state, PileId::Waste).len(), 0);
    for i in 0u8..4 {
        assert_eq!(cards_of(state, PileId::Foundation(i)).len(), 0);
    }
    assert_full_deck(state);
    assert_in_order(state);
}

#[test]
fn the_seed_shuffles_the_deck() {
    let shuffled = snapshot(&Game::new(Some(1)).state);
    let unshuffled = snapshot(&deal(&all_cards()));
    assert_ne!(shuffled, unshuffled);
    let other = snapshot(&Game::new(Some(2)).state);
    assert_ne!(shuffled, other);
}

#[test]
fn same_seed_same_deal() {
    let a = Game::new(Some(42));
    let b = Game::new(Some(42));
    assert_eq!(snapshot(&a.state), snapshot(&b.state));
}

#[test]
fn reset_deals_the_same_game_again() {
    let mut game = Game::new(Some(7));
    let start = snapshot(&game.state);
    assert!(game.handle_action(Action::Draw).is_ok());
    assert!(game.handle_action(Action::Draw).is_ok());
    assert_ne!(snapshot(&game.state), start);
    game.reset();
    assert_eq!(game.seed(), 7);
    assert_eq!(snapshot(&game.state), start);
    // the history is gone
    assert!(matches!(game.handle_action(Action::Undo), Err(GameError::UndoUnavailable)));
    game.reset();
    assert_eq!(snapshot(&game.state), start);
}

#[test]
fn a_game_without_a_seed_picks_one() {
    let game = Game::new(None);
    let again = Game::new(Some(game.seed()));
    assert_eq!(snapshot(&game.state), snapshot(&again.state));
    assert_full_deck(&game.state);
}

#[test]
fn draw_in_a_fresh_session() {
    let mut game = Game::new(Some(1));
    let stock = cards_of(&game.state, PileId::Stock);
    let top = stock[23];
    let text = game.handle_action(Action::Draw).unwrap();
    assert_eq!(text, "Drew a card from stock");
    let after = cards_of(&game.state, PileId::Stock);
    assert_eq!(after.len(), 23);
    assert_eq!(after[..], stock[..23]);
    let waste = cards_of(&game.state, PileId::Waste);
    assert_eq!(waste.len(), 1);
    assert_eq!(waste[0], Card::new(*top.rank(), *top.suit(), Face::Up));
    assert_full_deck(&game.state);
}

#[test]
fn undo_restores_the_state_before() {
    let mut game = Game::new(Some(3));
    let start = snapshot(&game.state);
    assert!(game.handle_action(Action::Draw).is_ok());
    let one = snapshot(&game.state);
    assert!(game.handle_action(Action::Draw).is_ok());
    assert_eq!(game.handle_action(Action::Undo).unwrap(), "Undid last action");
    assert_eq!(snapshot(&game.state), one);
    assert!(game.handle_action(Action::Undo).is_ok());
    assert_eq!(snapshot(&game.state), start);
    assert!(matches!(game.handle_action(Action::Undo), Err(GameError::UndoUnavailable)));
    assert_eq!(snapshot(&game.state), start);
}

#[test]
fn recycle_then_undo() {
    let mut game = Game::new(Some(5));
    for _ in 0..24 {
        assert!(game.handle_action(Action::Draw).is_ok());
    }
    assert!(matches!(game.handle_action(Action::Draw), Err(GameError::NoCardToDraw)));
    let before = snapshot(&game.state);
    let waste = cards_of(&game.state, PileId::Waste);
    assert_eq!(waste.len(), 24);
    assert_eq!(game.handle_action(Action::Recycle).unwrap(), "Recycled waste into stock");
    assert_eq!(cards_of(&game.state, PileId::Waste).len(), 0);
    let stock = cards_of(&game.state, PileId::Stock);
    assert_eq!(stock.len(), 24);
    for i in 0..24 {
        assert_eq!(stock[23 - i], Card::new(*waste[i].rank(), *waste[i].suit(), Face::Down));
    }
    assert_full_deck(&game.state);
    assert!(game.handle_action(Action::Undo).is_ok());
    assert_eq!(snapshot(&game.state), before);
}

#[test]
fn a_refused_action_is_not_put_on_the_history() {
    let mut game = Game::new(Some(1));
    let start = snapshot(&game.state);
    assert!(matches!(game.handle_action(Action::Recycle), Err(GameError::NothingToRecycle)));
    assert!(matches!(
        game.handle_action(Action::Move { num_cards: 1, from: PileId::Stock, to: PileId::Waste }),
        Err(GameError::InvalidMove)
    ));
    assert_eq!(snapshot(&game.state), start);
    assert!(matches!(game.handle_action(Action::Undo), Err(GameError::UndoUnavailable)));
}

#[test]
fn test_action_leaves_the_session_alone() {
    let game = Game::new(Some(1));
    let start = snapshot(&game.state);
    let tried = game.test_action(Action::Draw).unwrap();
    assert_eq!(cards_of(&tried, PileId::Waste).len(), 1);
    assert_eq!(snapshot(&game.state), start);
    assert!(matches!(game.test_action(Action::Undo), Err(GameError::UndoUnavailable)));
    assert!(matches!(game.test_action(Action::Reset), Err(GameError::InvalidMove)));
    assert!(matches!(game.test_action(Action::Recycle), Err(GameError::NothingToRecycle)));
}

#[test]
fn enumeration_of_a_fresh_session() {
    let game = Game::new(Some(1));
    let results = game.actions_results();
    let data = results.data();
    // draw, recycle, undo; waste onto 4 foundations and 7 columns; each of 4
    // foundations onto 7 columns; and for column i each of i + 1 stacks onto
    // 4 foundations and 6 other columns
    assert_eq!(data.len(), 3 + 4 + 7 + 28 + 28 * 10);
    assert_eq!(data[0].0, Action::Draw);
    assert!(data[0].1.is_ok());
    assert_eq!(data[1].0, Action::Recycle);
    assert!(matches!(data[1].1, Err(GameError::NothingToRecycle)));
    assert_eq!(data[2].0, Action::Undo);
    assert!(matches!(data[2].1, Err(GameError::UndoUnavailable)));
    assert_eq!(
        data[3].0,
        Action::Move { num_cards: 1, from: PileId::Waste, to: PileId::Foundation(0) }
    );
    assert_eq!(
        data[7].0,
        Action::Move { num_cards: 1, from: PileId::Waste, to: PileId::Column(0) }
    );
    assert_eq!(
        data[14].0,
        Action::Move { num_cards: 1, from: PileId::Foundation(0), to: PileId::Column(0) }
    );
    // column 0 has one card: its only stack onto the foundations, then onto columns 1 to 6
    assert_eq!(
        data[42].0,
        Action::Move { num_cards: 1, from: PileId::Column(0), to: PileId::Foundation(0) }
    );
    assert_eq!(
        data[46].0,
        Action::Move { num_cards: 1, from: PileId::Column(0), to: PileId::Column(1) }
    );
    // column 1 has two cards: the larger stack first
    assert_eq!(
        data[52].0,
        Action::Move { num_cards: 2, from: PileId::Column(1), to: PileId::Foundation(0) }
    );
    let undos = data.iter().filter(|(a, _)| *a == Action::Undo).count();
    assert_eq!(undos, 1);
    for i in 0u8..7 {
        let from_column = data
            .iter()
            .filter(|(a, _)| matches!(a, Action::Move { from, .. } if *from == PileId::Column(i)))
            .count();
        assert_eq!(from_column, 10 * (i as usize + 1));
    }
    let from_six = data
        .iter()
        .filter(|(a, _)| matches!(a, Action::Move { from: PileId::Column(6), .. }))
        .count();
    assert_eq!(from_six, 70);
    assert!(data.iter().all(|(a, _)| *a != Action::Reset));
    let valid = results.all_valid();
    assert!(valid.contains(&Action::Draw));
    for action in valid.iter() {
        if let Action::Move { from, to, .. } = action {
            assert_ne!(*from, PileId::Stock);
            assert_ne!(*to, PileId::Stock);
            assert_ne!(*to, PileId::Waste);
        }
    }
    for (action, _) in data.iter() {
        if let Action::Move { from, to, .. } = action {
            assert_ne!(*from, PileId::Stock);
            assert_ne!(*to, PileId::Stock);
            assert_ne!(from, to);
        }
    }
}

#[test]
fn valid_actions_are_the_ones_that_work() {
    for seed in 0..20u64 {
        let game = Game::new(Some(seed));
        let valid = game.actions_results().all_valid();
        for (action, result) in game.actions_results().data().iter() {
            assert_eq!(valid.contains(action), result.is_ok());
            let mut copy = game.clone();
            let handled = copy.handle_action(action.clone());
            if *action != Action::Undo {
                assert_eq!(handled.is_ok(), result.is_ok());
            }
            if let (Ok(_), Ok(state)) = (&handled, result) {
                assert_eq!(snapshot(&copy.state), snapshot(state));
            }
        }
    }
}

#[test]
fn play_keeps_the_deck_and_the_order() {
    for seed in 0..10u64 {
        let mut game = Game::new(Some(seed));
        for step in 0..60usize {
            let valid = game.actions_results().all_valid();
            assert!(!valid.is_empty() || cards_of(&game.state, PileId::Stock).is_empty());
            // prefer a move; else draw; else recycle
            let moves: Vec<&Action> = valid.iter().filter(|a| matches!(a, Action::Move { .. })).collect();
            let action = if !moves.is_empty() && step % 3 != 2 {
                moves[(seed as usize + step) % moves.len()].clone()
            } else if valid.contains(&Action::Draw) {
                Action::Draw
            } else if valid.contains(&Action::Recycle) {
                Action::Recycle
            } else if !moves.is_empty() {
                moves[0].clone()
            } else {
                break;
            };
            let before = snapshot(&game.state);
            let text = game.handle_action(action.clone()).unwrap();
            assert_eq!(text, action.to_string());
            assert_full_deck(&game.state);
            assert_in_order(&game.state);
            let after = snapshot(&game.state);
            let mut copy = game.clone();
            assert!(copy.handle_action(Action::Undo).is_ok());
            assert_eq!(snapshot(&copy.state), before);
            assert_eq!(snapshot(&game.state), after);
        }
    }
}

#[test]
fn the_results_follow_the_position() {
    let mut game = Game::new(Some(1));
    assert!(game.handle_action(Action::Draw).is_ok());
    let after_draw = game.actions_results().data().len();
    assert!(matches!(game.actions_results().data()[2].1, Err(GameError::UndoUnavailable)));
    assert!(game.handle_action(Action::Undo).is_ok());
    let fresh = Game::new(Some(1));
    assert_eq!(game.actions_results().data().len(), fresh.actions_results().data().len());
    assert_eq!(after_draw, fresh.actions_results().data().len());
    assert_eq!(
        game.actions_results().all_valid(),
        fresh.actions_results().all_valid()
    );
}

#[test]
fn actions_in_words() {
    assert_eq!(Action::Draw.to_string(), "Drew a card from stock");
    assert_eq!(Action::Recycle.to_string(), "Recycled waste into stock");
    assert_eq!(Action::Undo.to_string(), "Undid last action");
    assert_eq!(Action::Reset.to_string(), "Reset game");
    assert_eq!(
        Action::Move { num_cards: 3, from: PileId::Column(2), to: PileId::Foundation(0) }.to_string(),
        "Moved 3 card(s) from column 2 to foundation 0"
    );
    assert_eq!(
        Action::Move { num_cards: 1234567890, from: PileId::Waste, to: PileId::Stock }.to_string(),
        "Moved 1234567890 card(s) from waste to stock"
    );
    assert_eq!(
        Action::Move { num_cards: 0, from: PileId::Stock, to: PileId::Column(105) }.to_string(),
        "Moved 0 card(s) from stock to column 105"
    );
}

#[test]
fn empty_results() {
    let results = solitaire::actions_results::ActionsResults::empty();
    assert!(results.data().is_empty());
    assert!(results.all_valid().is_empty());
}

#[test]
fn a_session_from_a_given_deck() {
    let deck = all_cards();
    let game = Game::from_deck(9, &deck);
    assert_eq!(game.seed(), 9);
    assert_eq!(snapshot(&game.state), snapshot(&deal(&deck)));
    assert!(game.history().is_empty());
    // the columns show ace, two, four, seven and jack of hearts, three and nine of clubs:
    // the ace can go up, the two onto the three, the three onto the four
    assert_eq!(
        game.actions_results().all_valid(),
        vec![
            Action::Draw,
            Action::Move { num_cards: 1, from: PileId::Column(0), to: PileId::Foundation(0) },
            Action::Move { num_cards: 1, from: PileId::Column(1), to: PileId::Column(5) },
            Action::Move { num_cards: 1, from: PileId::Column(5), to: PileId::Column(2) },
        ]
    );
}

#[test]
fn the_deal_of_seed_one() {
    let game = Game::new(Some(1));
    assert_eq!(
        cards_of(&game.state, PileId::Column(0)),
        vec![Card::new(solitaire::card::Rank::Ace, solitaire::card::Suit::Heart, Face::Up)]
    );
    assert_eq!(
        cards_of(&game.state, PileId::Stock)[23],
        Card::new(solitaire::card::Rank::Four, solitaire::card::Suit::Diamond, Face::Down)
    );
    assert_eq!(
        game.actions_results().all_valid(),
        vec![
            Action::Draw,
            Action::Move { num_cards: 1, from: PileId::Column(0), to: PileId::Foundation(0) },
            Action::Move { num_cards: 1, from: PileId::Column(3), to: PileId::Column(5) },
        ]
    );
}

#[test]
fn a_reset_asked_as_an_action() {
    let mut game = Game::new(Some(17));
    let start = snapshot(&game.state);
    let fresh_results = game.actions_results().all_valid();
    assert!(game.handle_action(Action::Draw).is_ok());
    assert_eq!(cards_of(&game.state, PileId::Waste).len(), 1);
    assert_eq!(game.history().len(), 1);
    assert_eq!(game.handle_action(Action::Reset).unwrap(), "Reset game");
    assert_eq!(game.seed(), 17);
    assert_eq!(snapshot(&game.state), start);
    assert_eq!(snapshot(&game.state), snapshot(&Game::new(Some(17)).state));
    assert_eq!(cards_of(&game.state, PileId::Stock).len(), 24);
    assert_eq!(cards_of(&game.state, PileId::Waste).len(), 0);
    assert!(game.history().is_empty());
    assert_eq!(game.actions_results().all_valid(), fresh_results);
    assert!(matches!(game.handle_action(Action::Undo), Err(GameError::UndoUnavailable)));
    // on a fresh session too, and again
    assert!(game.handle_action(Action::Reset).is_ok());
    assert!(game.handle_action(Action::Reset).is_ok());
    assert_eq!(snapshot(&game.state), start);
    assert_full_deck(&game.state);
    assert_in_order(&game.state);
}

#[test]
fn a_reset_is_not_tried_on_a_table() {
    let mut game = Game::new(Some(17));
    assert!(game.handle_action(Action::Draw).is_ok());
    let before = snapshot(&game.state);
    assert!(matches!(game.test_action(Action::Reset), Err(GameError::InvalidMove)));
    assert_eq!(snapshot(&game.state), before);
    assert_eq!(game.history().len(), 1);
}
