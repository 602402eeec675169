//! A session of play: the table, the seed it was dealt from, the states to
//! return to, and the moves that can be tried next.

use crate::action::Action;
use crate::actions_results::{enumeration, valid_actions, ActionsResults, Outcome};
use crate::card::{all_cards, deck_order, Card};
use crate::deal::{
    deal, dealt, lemma_dealt_holds_full_deck, lemma_dealt_is_well_formed, lemma_dealt_sizes,
};
use crate::game_error::{GameError, GameErrorView};
use crate::game_state::{GameState, GameStateView};
use crate::invariants::{holds_full_deck, well_formed};
use crate::laws::lemma_fresh_deal_offers_a_draw;
use crate::shuffle::{fresh_seed, seeded_shuffle, shuffle_with_seed};
use vstd::prelude::*;

verus! {

/// What comes of trying `action` on the table `state`. An undo cannot be
/// tried on a table alone, and a reset does not start from the table: both
/// are for the session to carry out, and a trial refuses them.
pub open spec fn trial(state: GameStateView, action: Action) -> Outcome {
    match action {
        Action::Draw => state.draw(),
        Action::Recycle => state.recycle(),
        Action::Move { num_cards, from, to } => state.move_cards(num_cards as nat, from, to),
        Action::Undo => Err(GameErrorView::UndoUnavailable),
        Action::Reset => Err(GameErrorView::InvalidMove),
    }
}

/// Whether the deck that the seed shuffles holds the cards of a new deck,
/// each as often as the new deck holds it. It does for every seed that a
/// session was started with.
pub open spec fn shuffles_a_full_deck(seed: u64) -> bool {
    seeded_shuffle(seed, deck_order()).to_multiset() == deck_order().to_multiset()
}

/// A session as the rules see it.
pub struct GameView {
    /// The table.
    pub state: GameStateView,
    /// The tables before each successful action that was not undone, the
    /// oldest first.
    pub history: Seq<GameStateView>,
    /// The seed of the deal.
    pub seed: u64,
    /// The candidates of some position with what came of trying them.
    pub results: Seq<(Action, Outcome)>,
}

impl GameView {
    /// The session with the results of its current position.
    pub open spec fn refreshed(self) -> GameView {
        GameView { results: enumeration(self.state), ..self }
    }

    /// The session at the start of the game dealt from `deck`.
    pub open spec fn started(seed: u64, deck: Seq<Card>) -> GameView {
        GameView { state: dealt(deck), history: Seq::empty(), seed, results: Seq::empty() }.refreshed()
    }

    /// The session at the start of the game with this seed: a new deck,
    /// shuffled by the seed and dealt.
    pub open spec fn fresh(seed: u64) -> GameView {
        Self::started(seed, seeded_shuffle(seed, deck_order()))
    }

    /// The session after `action`, or why the action is refused. A successful
    /// draw, recycle or move puts the table it started from on the history;
    /// an undo takes the latest table off the history and makes it current;
    /// a reset starts the game of the session's seed again, with no history.
    pub open spec fn handle(self, action: Action) -> Result<GameView, GameErrorView> {
        match action {
            Action::Reset => Ok(GameView::fresh(self.seed)),
            Action::Undo => if self.history.len() > 0 {
                Ok(
                    GameView {
                        state: self.history.last(),
                        history: self.history.drop_last(),
                        ..self
                    }.refreshed(),
                )
            } else {
                Err(GameErrorView::UndoUnavailable)
            },
            _ => match trial(self.state, action) {
                Ok(next) => Ok(
                    GameView {
                        state: next,
                        history: self.history.push(self.state),
                        ..self
                    }.refreshed(),
                ),
                Err(e) => Err(e),
            },
        }
    }

    /// Whether the table and every table on the history is well formed and
    /// holds a full deck.
    pub open spec fn sound(self) -> bool {
        &&& well_formed(self.state)
        &&& holds_full_deck(self.state)
        &&& forall|i: int|
            0 <= i < self.history.len() ==> well_formed(#[trigger] self.history[i])
                && holds_full_deck(self.history[i])
    }
}

/// The tables, as the rules see them.
pub open spec fn states_view(states: Seq<GameState>) -> Seq<GameStateView> {
    Seq::new(states.len(), |i: int| states[i]@)
}

/// A session of play.
pub struct Game {
    pub state: GameState,
    state_history: Vec<GameState>,
    seed: u64,
    actions_results: ActionsResults,
}

impl View for Game {
    type V = GameView;

    closed spec fn view(&self) -> GameView {
        GameView {
            state: self.state@,
            history: states_view(self.state_history@),
            seed: self.seed,
            results: self.actions_results@,
        }
    }
}

impl Clone for Game {
    fn clone(&self) -> (r: Self)
        ensures
            r@ == self@,
    {
        let mut history: Vec<GameState> = Vec::new();
        let mut i: usize = 0;
        while i < self.state_history.len()
            invariant
                i <= self.state_history.len(),
                history@.len() == i,
                states_view(history@) == states_view(self.state_history@).subrange(0, i as int),
            decreases self.state_history.len() - i,
        {
            let ghost earlier = history@;
            history.push(self.state_history[i].clone());
            proof {
                assert forall|j: int| 0 <= j < i + 1 implies states_view(history@)[j]
                    == states_view(self.state_history@)[j] by {
                    if j < i {
                        assert(history@[j] == earlier[j]);
                        assert(states_view(earlier)[j] == states_view(
                            self.state_history@,
                        ).subrange(0, i as int)[j]);
                    }
                }
                assert(states_view(history@) =~= states_view(self.state_history@).subrange(
                    0,
                    i + 1,
                ));
            }
            i = i + 1;
        }
        proof {
            assert(states_view(self.state_history@).subrange(0, self.state_history@.len() as int)
                =~= states_view(self.state_history@));
        }
        Game {
            state: self.state.clone(),
            state_history: history,
            seed: self.seed,
            actions_results: self.actions_results.clone(),
        }
    }
}

impl Game {
    /// Starts the game that `deck` deals into.
    pub fn from_deck(seed: u64, deck: &Vec<Card>) -> (game: Self)
        requires
            deck@.len() >= 28,
        ensures
            game@ == GameView::started(seed, deck@),
    {
        let mut game = Self {
            seed,
            state: deal(deck),
            state_history: Vec::new(),
            actions_results: ActionsResults::empty(),
        };
        let results = ActionsResults::from_game(&game);
        game.actions_results = results;
        proof {
            assert(game@.history =~= Seq::<GameStateView>::empty());
        }
        game
    }

    /// Takes up a session where it was left: with the table, the seed and
    /// the history that were kept of it. The results are those of the table.
    pub fn restore(seed: u64, state: GameState, history: Vec<GameState>) -> (game: Self)
        ensures
            game@ == (GameView {
                state: state@,
                history: states_view(history@),
                seed,
                results: Seq::empty(),
            }).refreshed(),
    {
        let mut game = Self {
            seed,
            state,
            state_history: history,
            actions_results: ActionsResults::empty(),
        };
        let results = ActionsResults::from_game(&game);
        game.actions_results = results;
        game
    }

    /// Starts a game: a new deck is shuffled by the seed and dealt. Without a
    /// seed a fresh one is drawn at random.
    pub fn new(seed: Option<u64>) -> (game: Self)
        ensures
            game@ == GameView::fresh(game@.seed),
            seed matches Some(given) ==> game@.seed == given,
            shuffles_a_full_deck(game@.seed),
            game@.sound(),
            forall|k: u8| k < 7 ==> (#[trigger] game@.state.columns[k]).cards.len() == k + 1,
            game@.state.stock.cards.len() == 24,
            valid_actions(game@.results).contains(Action::Draw),
    {
        let seed = match seed {
            Some(seed) => seed,
            None => fresh_seed(),
        };
        let mut cards = all_cards();
        shuffle_with_seed(&mut cards, seed);
        proof {
            lemma_dealt_holds_full_deck(cards@);
            lemma_dealt_is_well_formed(cards@);
            lemma_dealt_sizes(cards@);
            lemma_fresh_deal_offers_a_draw(cards@);
        }
        Self::from_deck(seed, &cards)
    }

    /// The table, for reading.
    pub fn state(&self) -> (state: &GameState)
        ensures
            state@ == self@.state,
    {
        &self.state
    }

    /// The tables to return to by undoing, the oldest first.
    pub fn history(&self) -> (history: &Vec<GameState>)
        ensures
            states_view(history@) == self@.history,
    {
        &self.state_history
    }

    /// The seed of the deal.
    pub fn seed(&self) -> (seed: u64)
        ensures
            seed == self@.seed,
    {
        self.seed
    }

    /// The candidates of the position after the last successful action, with
    /// what came of trying them.
    pub fn actions_results(&self) -> (results: &ActionsResults)
        ensures
            results@ == self@.results,
    {
        &self.actions_results
    }

    /// Starts the game of this session's seed again.
    pub fn reset(&mut self)
        ensures
            final(self)@ == GameView::fresh(old(self)@.seed),
            shuffles_a_full_deck(old(self)@.seed),
            final(self)@.sound(),
            forall|k: u8| k < 7 ==> (#[trigger] final(self)@.state.columns[k]).cards.len() == k + 1,
            final(self)@.state.stock.cards.len() == 24,
            valid_actions(final(self)@.results).contains(Action::Draw),
    {
        *self = Game::new(Some(self.seed));
    }

    /// Tries `action` on a copy of the table and returns the copy as the
    /// action left it. The session is left alone.
    pub fn test_action(&self, action: Action) -> (r: Result<GameState, GameError>)
        ensures
            match trial(self@.state, action) {
                Ok(after) => r matches Ok(state) && state@ == after,
                Err(e) => r matches Err(x) && x@ == e,
            },
    {
        let mut state_clone = self.state.clone();
        match carry_out(&mut state_clone, &action) {
            Ok(()) => Ok(state_clone),
            Err(e) => Err(e),
        }
    }

    /// Carries out `action` and reports it in words, or refuses it and
    /// leaves the session as it was. After a success the results are those
    /// of the new position. A reset always succeeds: it deals the game of the
    /// session's seed again and forgets the history.
    pub fn handle_action(&mut self, action: Action) -> (r: Result<String, GameError>)
        ensures
            match old(self)@.handle(action) {
                Ok(next) => r matches Ok(text) && text@ == action.text() && final(self)@ == next,
                Err(e) => r matches Err(x) && x@ == e && final(self)@ == old(self)@,
            },
            old(self)@.sound() ==> final(self)@.sound(),
            action is Reset ==> shuffles_a_full_deck(old(self)@.seed) && final(self)@.sound(),
    {
        match action {
            Action::Reset => {
                *self = Game::new(Some(self.seed));
                Ok(action.to_string())
            },
            Action::Undo => match self.state_history.pop() {
                Some(prev) => {
                    self.state = prev;
                    proof {
                        assert(states_view(self.state_history@) =~= old(self)@.history.drop_last());
                        assert(prev@ == old(self)@.history.last());
                    }
                    let results = ActionsResults::from_game(self);
                    self.actions_results = results;
                    Ok(action.to_string())
                },
                None => {
                    proof {
                        assert(states_view(self.state_history@) =~= old(self)@.history);
                    }
                    Err(GameError::UndoUnavailable)
                },
            },
            Action::Draw | Action::Recycle | Action::Move { .. } => {
                let temp_state = self.state.clone();
                match carry_out(&mut self.state, &action) {
                    Ok(()) => {
                        self.state_history.push(temp_state);
                        proof {
                            assert(states_view(self.state_history@) =~= old(self)@.history.push(
                                old(self)@.state,
                            ));
                        }
                        let results = ActionsResults::from_game(self);
                        self.actions_results = results;
                        Ok(action.to_string())
                    },
                    Err(e) => Err(e),
                }
            },
        }
    }
}

/// Carries out `action` on the table as far as a table alone allows: a draw,
/// a recycle or a move. An undo and a reset are refused.
fn carry_out(state: &mut GameState, action: &Action) -> (r: Result<(), GameError>)
    ensures
        match trial(old(state)@, *action) {
            Ok(after) => r is Ok && final(state)@ == after,
            Err(e) => r matches Err(x) && x@ == e && final(state)@ == old(state)@,
        },
        well_formed(old(state)@) ==> well_formed(final(state)@),
        holds_full_deck(old(state)@) ==> holds_full_deck(final(state)@),
{
    match action {
        Action::Draw => state.draw(),
        Action::Recycle => state.recycle(),
        Action::Move { num_cards, from, to } => state.move_cards(*num_cards, *from, *to),
        Action::Undo => Err(GameError::UndoUnavailable),
        Action::Reset => Err(GameError::InvalidMove),
    }
}

} // verus!
