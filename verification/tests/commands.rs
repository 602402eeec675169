use solitaire::action::Action;
use solitaire::game::Game;
use solitaire::logger::{
    is_whitespace, parse_command, parse_pile, split_words, Command, GuiLogger, Request,
};
use solitaire::pile::{PileBehavior, PileId, Side};

#[test]
fn parse_pile_names() {
    assert_eq!(parse_pile("s"), Some(PileId::Stock));
    assert_eq!(parse_pile("w"), Some(PileId::Waste));
    assert_eq!(parse_pile("c0"), Some(PileId::Column(0)));
    assert_eq!(parse_pile("c6"), Some(PileId::Column(6)));
    assert_eq!(parse_pile("c255"), Some(PileId::Column(255)));
    assert_eq!(parse_pile("f3"), Some(PileId::Foundation(3)));
    assert_eq!(parse_pile("f007"), Some(PileId::Foundation(7)));
    assert_eq!(parse_pile("f+7"), Some(PileId::Foundation(7)));
    assert_eq!(parse_pile("c00000000000000000000000000012"), Some(PileId::Column(12)));
}

#[test]
fn parse_pile_refuses() {
    for token in [
        "", "c", "f", "x", "ss", "sw", "s0", "w1", "c256", "c999", "c-1", "c+", "c++1", "c1a", "ca",
        "c 1", "C1", "F1", "S", "1", "c1.0", "f0x10", "c18446744073709551616", "c٣",
    ] {
        assert_eq!(parse_pile(token), None, "{:?}", token);
    }
}

#[test]
fn parse_pile_agrees_with_std() {
    let tails = ["", "0", "1", "9", "10", "99", "255", "256", "300", "+0", "+255", "+256", "-0", "0255", "2550", "1e1", " 1", "1 "];
    for tail in tails {
        let expected = tail.parse::<u8>().ok();
        assert_eq!(parse_pile(&format!("c{}", tail)), expected.map(PileId::Column), "{:?}", tail);
        assert_eq!(parse_pile(&format!("f{}", tail)), expected.map(PileId::Foundation), "{:?}", tail);
    }
}

#[test]
fn white_space_is_unicode_white_space() {
    for u in 0u32..=0x10FFFF {
        if let Some(c) = char::from_u32(u) {
            assert_eq!(is_whitespace(c), c.is_whitespace(), "{:x}", u);
        }
    }
}

#[test]
fn split_words_agrees_with_std() {
    for line in [
        "",
        " ",
        "draw",
        "  draw  ",
        "move 1 w c0",
        "\tmove\u{3000}1\n\nw \u{a0} c0\r\n",
        "a  b   c",
        "héllo wörld",
        " x",
        "x ",
    ] {
        let expected: Vec<&str> = line.split_whitespace().collect();
        assert_eq!(split_words(line), expected, "{:?}", line);
    }
}

#[test]
fn parse_command_requests() {
    assert_eq!(parse_command(""), Request::Nothing);
    assert_eq!(parse_command("   \t "), Request::Nothing);
    assert_eq!(parse_command("h"), Request::Help);
    assert_eq!(parse_command("help me"), Request::Help);
    assert_eq!(parse_command("draw"), Request::Act(Action::Draw));
    assert_eq!(parse_command(" draw now "), Request::Act(Action::Draw));
    assert_eq!(parse_command("recycle"), Request::Act(Action::Recycle));
    assert_eq!(parse_command("undo"), Request::Unknown);
    assert_eq!(parse_command("Draw"), Request::Unknown);
    assert_eq!(parse_command("move"), Request::MoveUsage);
    assert_eq!(parse_command("move 1 w"), Request::MoveUsage);
    assert_eq!(parse_command("move 1 w c0 x"), Request::MoveUsage);
    assert_eq!(parse_command("move x w c0"), Request::InvalidNumber);
    assert_eq!(parse_command("move -1 w c0"), Request::InvalidNumber);
    assert_eq!(parse_command("move 99999999999999999999999 w c0"), Request::InvalidNumber);
    assert_eq!(parse_command("move 1 q c0"), Request::InvalidFrom);
    assert_eq!(parse_command("move 1 w c256"), Request::InvalidTo);
    assert_eq!(parse_command("move x q z"), Request::InvalidNumber);
    assert_eq!(
        parse_command("move 3 c2 f0"),
        Request::Act(Action::Move { num_cards: 3, from: PileId::Column(2), to: PileId::Foundation(0) })
    );
    assert_eq!(
        parse_command("move +0 s w"),
        Request::Act(Action::Move { num_cards: 0, from: PileId::Stock, to: PileId::Waste })
    );
    let most = format!("move {} w c1", usize::MAX);
    assert_eq!(
        parse_command(&most),
        Request::Act(Action::Move { num_cards: usize::MAX, from: PileId::Waste, to: PileId::Column(1) })
    );
}

#[test]
fn command_instructions() {
    assert_eq!(Command::Draw.instructions(), "draw - draws card from stock to waste");
    assert_eq!(Command::Recycle.instructions(), "recycle - recycles cards from waste into stock");
    assert_eq!(
        Command::Move.instructions(),
        "move <n> <from> <to> - moves <n> cards from <from> to <to>\ns-stock,w-waste,fx-foundation(x=0..=3),cx-column(x=0..=6)"
    );
    assert_eq!(
        Command::Help.instructions(),
        format!(
            "Commands\n{}\n{}\n{}",
            Command::Draw.instructions(),
            Command::Recycle.instructions(),
            Command::Move.instructions()
        )
    );
}

#[test]
fn logger_add_and_clear() {
    let mut logger = GuiLogger::default();
    logger.add("one");
    logger.add(String::from("two"));
    assert_eq!(logger.log, vec!["one".to_string(), "two".to_string()]);
    logger.input = "typed".to_string();
    logger.clear();
    assert!(logger.log.is_empty());
    assert_eq!(logger.input, "typed");
}

#[test]
fn execute_command_on_a_game() {
    let mut game = Game::new(Some(1));
    let mut logger = GuiLogger::default();
    logger.execute_command("   ".to_string(), &mut game);
    assert!(logger.log.is_empty());
    logger.execute_command("draw".to_string(), &mut game);
    assert_eq!(game.state.pile(PileId::Waste).unwrap().len(), 1);
    logger.execute_command("recycle".to_string(), &mut game);
    logger.execute_command("move 1 s w".to_string(), &mut game);
    logger.execute_command("move 1 c0 f0".to_string(), &mut game);
    logger.execute_command("move 1 c0".to_string(), &mut game);
    logger.execute_command("move one c0 f0".to_string(), &mut game);
    logger.execute_command("move 1 z f0".to_string(), &mut game);
    logger.execute_command("move 1 c0 z".to_string(), &mut game);
    logger.execute_command("dance".to_string(), &mut game);
    logger.execute_command("h".to_string(), &mut game);
    logger.execute_command("move 1 c9 c0".to_string(), &mut game);
    assert_eq!(
        logger.log,
        vec![
            "Drew a card from stock".to_string(),
            "Cannot recycle: stock is not empty".to_string(),
            "Invalid move according to the rules".to_string(),
            "Moved 1 card(s) from column 0 to foundation 0".to_string(),
            Command::Move.instructions(),
            "Invalid number of cards".to_string(),
            "Invalid 'from' pile".to_string(),
            "Invalid 'to' pile".to_string(),
            "Unknown command".to_string(),
            Command::Help.instructions(),
            "Column 9 doesn not exist".to_string(),
        ]
    );
    assert_eq!(game.state.pile(PileId::Foundation(0)).unwrap().len(), 1);
    assert_eq!(game.state.pile(PileId::Column(0)).unwrap().len(), 0);
    assert_eq!(game.history().len(), 2);
}

#[test]
fn a_pile_error_is_logged_in_its_debug_form() {
    let mut game = Game::new(Some(1));
    let mut logger = GuiLogger::default();
    logger.execute_command("move 1 w c0".to_string(), &mut game);
    logger.execute_command("move 0 c0 c1".to_string(), &mut game);
    assert_eq!(
        logger.log,
        vec![
            "NotEnoughCards { pile: Waste, requested: 1, available: 0 }".to_string(),
            "InvalidTakeZero { pile: Column(0) }".to_string(),
        ]
    );
    assert!(game.history().is_empty());
}

#[test]
fn restore_takes_up_a_session() {
    let mut game = Game::new(Some(11));
    assert!(game.handle_action(Action::Draw).is_ok());
    assert!(game.handle_action(Action::Draw).is_ok());
    let history: Vec<_> = game.history().iter().map(|s| s.clone()).collect();
    let mut again = Game::restore(game.seed(), game.state.clone(), history);
    assert_eq!(again.seed(), 11);
    assert_eq!(again.history().len(), 2);
    assert_eq!(
        again.actions_results().all_valid(),
        game.actions_results().all_valid()
    );
    assert!(again.handle_action(Action::Undo).is_ok());
    assert!(game.handle_action(Action::Undo).is_ok());
    assert_eq!(
        again.state.pile(PileId::Waste).unwrap().peek_all(Side::Bottom),
        game.state.pile(PileId::Waste).unwrap().peek_all(Side::Bottom)
    );
    assert_eq!(again.state().pile(PileId::Stock).unwrap().len(), 23);
}
