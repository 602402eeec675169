//! The names most callers need, in one place.

pub use crate::action::Action;
pub use crate::actions_results::ActionsResults;
pub use crate::card::{all_cards, Card, Color, Face, Rank, Suit};
pub use crate::column::Column;
pub use crate::error::{CannotAcceptReason, PileError};
pub use crate::foundation::Foundation;
pub use crate::game::Game;
pub use crate::game_error::GameError;
pub use crate::game_state::{GameState, PileMut};
pub use crate::pile::{PileBehavior, PileId, Side};
pub use crate::stock::Stock;
pub use crate::waste::Waste;
