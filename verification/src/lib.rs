//! A rule engine for Klondike solitaire: cards, the four kinds of pile, the
//! state of a game with its transitions, a session with undo, and the
//! enumeration of the moves that are legal in a position.

pub mod action;
pub mod actions_results;
pub mod card;
pub mod column;
pub mod deal;
pub mod error;
pub mod foundation;
pub mod game;
pub mod game_error;
pub mod game_state;
pub mod interaction;
pub mod invariants;
pub mod laws;
pub mod logger;
pub mod pile;
pub mod prelude;
pub mod shuffle;
pub mod stock;
pub mod text;
pub mod waste;
