//! The moves that can be tried in a position, each with what comes of it.

use crate::action::Action;
use crate::game::{trial, Game};
use crate::game_error::{GameError, GameErrorView};
use crate::game_state::{GameState, GameStateView};
use crate::pile::{PileBehavior, PileId};
use vstd::prelude::*;

verus! {

/// What an action leads to: the table after it, or why it is refused.
pub type Outcome = Result<GameStateView, GameErrorView>;

/// What comes of an action, as the rules see it.
pub open spec fn outcome_view(result: Result<GameState, GameError>) -> Outcome {
    match result {
        Ok(state) => Ok(state@),
        Err(e) => Err(e@),
    }
}

/// The entries of a list of results, as the rules see them.
pub open spec fn entries_view(data: Seq<(Action, Result<GameState, GameError>)>) -> Seq<
    (Action, Outcome),
> {
    Seq::new(data.len(), |i: int| (data[i].0, outcome_view(data[i].1)))
}

/// One more result is one more entry.
proof fn lemma_entries_push(
    data: Seq<(Action, Result<GameState, GameError>)>,
    entry: (Action, Result<GameState, GameError>),
)
    ensures
        entries_view(data.push(entry)) == entries_view(data).push(
            (entry.0, outcome_view(entry.1)),
        ),
{
    assert(entries_view(data.push(entry)) =~= entries_view(data).push(
        (entry.0, outcome_view(entry.1)),
    ));
}

/// The moves of `n` cards from `from` onto each of the targets, in their
/// order; a pile is never a target of its own cards.
pub open spec fn moves_onto(n: usize, from: PileId, targets: Seq<PileId>) -> Seq<Action>
    decreases targets.len(),
{
    if targets.len() == 0 {
        Seq::empty()
    } else {
        let before = moves_onto(n, from, targets.drop_last());
        if targets.last() == from {
            before
        } else {
            before.push(Action::Move { num_cards: n, from, to: targets.last() })
        }
    }
}

/// The moves of one card from each of the sources, in their order, onto each
/// of the targets.
pub open spec fn single_moves(sources: Seq<PileId>, targets: Seq<PileId>) -> Seq<Action>
    decreases sources.len(),
{
    if sources.len() == 0 {
        Seq::empty()
    } else {
        single_moves(sources.drop_last(), targets) + moves_onto(1, sources.last(), targets)
    }
}

/// The moves of the `count` largest stacks of a pile of `len` cards, the
/// largest first: each stack onto every foundation, then onto every other
/// column.
pub open spec fn stack_moves(
    from: PileId,
    len: nat,
    count: nat,
    foundations: Seq<PileId>,
    columns: Seq<PileId>,
) -> Seq<Action>
    decreases count,
{
    if count == 0 {
        Seq::empty()
    } else {
        let n = (len - (count - 1)) as usize;
        stack_moves(from, len, (count - 1) as nat, foundations, columns) + moves_onto(
            n,
            from,
            foundations,
        ) + moves_onto(n, from, columns)
    }
}

/// The moves of every stack of every one of the sources, in their order.
pub open spec fn column_moves(
    state: GameStateView,
    sources: Seq<PileId>,
    foundations: Seq<PileId>,
    columns: Seq<PileId>,
) -> Seq<Action>
    decreases sources.len(),
{
    if sources.len() == 0 {
        Seq::empty()
    } else {
        let from = sources.last();
        column_moves(state, sources.drop_last(), foundations, columns) + (match state.pile(from) {
            Ok(pile) => stack_moves(from, pile.cards.len(), pile.cards.len(), foundations, columns),
            Err(_) => Seq::empty(),
        })
    }
}

/// Every action that is tried in a position, in the order of trial: draw,
/// recycle, undo; the top card of the waste onto each foundation and each
/// column; the top card of each foundation onto each column; and every stack
/// of every column, the largest first, onto each foundation and each other
/// column. Piles are gone through in ascending order of their index.
pub open spec fn candidates(state: GameStateView) -> Seq<Action> {
    let foundations = state.foundation_ids();
    let columns = state.column_ids();
    seq![Action::Draw, Action::Recycle, Action::Undo] + moves_onto(
        1,
        PileId::Waste,
        foundations,
    ) + moves_onto(1, PileId::Waste, columns) + single_moves(foundations, columns) + column_moves(
        state,
        columns,
        foundations,
        columns,
    )
}

/// Each of the actions with what comes of trying it in the position.
pub open spec fn outcomes(state: GameStateView, actions: Seq<Action>) -> Seq<(Action, Outcome)> {
    Seq::new(actions.len(), |i: int| (actions[i], trial(state, actions[i])))
}

/// Every candidate of the position with what comes of trying it.
pub open spec fn enumeration(state: GameStateView) -> Seq<(Action, Outcome)> {
    outcomes(state, candidates(state))
}

/// The actions among the entries that succeeded, in their order.
pub open spec fn valid_actions(entries: Seq<(Action, Outcome)>) -> Seq<Action>
    decreases entries.len(),
{
    if entries.len() == 0 {
        Seq::empty()
    } else if entries.last().1 is Ok {
        valid_actions(entries.drop_last()).push(entries.last().0)
    } else {
        valid_actions(entries.drop_last())
    }
}

/// A list of actions, each with the result of trying it.
pub struct ActionsResults {
    data: Vec<(Action, Result<GameState, GameError>)>,
}

impl View for ActionsResults {
    type V = Seq<(Action, Outcome)>;

    closed spec fn view(&self) -> Seq<(Action, Outcome)> {
        entries_view(self.data@)
    }
}

impl Clone for ActionsResults {
    fn clone(&self) -> (r: Self)
        ensures
            r@ == self@,
    {
        let mut data: Vec<(Action, Result<GameState, GameError>)> = Vec::new();
        let mut i: usize = 0;
        while i < self.data.len()
            invariant
                i <= self.data.len(),
                data@.len() == i,
                entries_view(data@) == entries_view(self.data@).subrange(0, i as int),
            decreases self.data.len() - i,
        {
            let action = self.data[i].0.clone();
            let result = match &self.data[i].1 {
                Ok(state) => Ok(state.clone()),
                Err(e) => Err(e.clone()),
            };
            proof {
                lemma_entries_push(data@, (action, result));
            }
            data.push((action, result));
            proof {
                assert(entries_view(data@) =~= entries_view(self.data@).subrange(0, i + 1));
            }
            i = i + 1;
        }
        proof {
            assert(entries_view(self.data@).subrange(0, self.data@.len() as int) =~= entries_view(
                self.data@,
            ));
        }
        ActionsResults { data }
    }
}

/// Tries the moves of `n` cards from `from` onto each of the targets and
/// appends what comes of them.
fn try_moves(
    data: &mut Vec<(Action, Result<GameState, GameError>)>,
    game: &Game,
    n: usize,
    from: PileId,
    targets: &Vec<PileId>,
)
    ensures
        entries_view(final(data)@) == entries_view(old(data)@) + outcomes(
            game@.state,
            moves_onto(n, from, targets@),
        ),
{
    let ghost start = entries_view(data@);
    let mut i: usize = 0;
    proof {
        assert(targets@.subrange(0, 0) =~= Seq::<PileId>::empty());
        assert(start + outcomes(game@.state, Seq::<Action>::empty()) =~= start);
    }
    while i < targets.len()
        invariant
            i <= targets.len(),
            entries_view(data@) == start + outcomes(
                game@.state,
                moves_onto(n, from, targets@.subrange(0, i as int)),
            ),
        decreases targets.len() - i,
    {
        let to = targets[i];
        let ghost before = moves_onto(n, from, targets@.subrange(0, i as int));
        proof {
            assert(targets@.subrange(0, i + 1).drop_last() =~= targets@.subrange(0, i as int));
            assert(targets@.subrange(0, i + 1).last() == to);
        }
        if to != from {
            let action = Action::Move { num_cards: n, from, to };
            let result = game.test_action(action.clone());
            proof {
                lemma_entries_push(data@, (action, result));
            }
            data.push((action, result));
            proof {
                assert(entries_view(data@) =~= start + outcomes(game@.state, before.push(action)));
            }
        }
        i = i + 1;
    }
    proof {
        assert(targets@.subrange(0, targets@.len() as int) =~= targets@);
    }
}

impl ActionsResults {
    /// No entries at all.
    pub fn empty() -> (r: Self)
        ensures
            r@ == Seq::<(Action, Outcome)>::empty(),
    {
        let r = Self { data: Vec::new() };
        proof {
            assert(r@ =~= Seq::<(Action, Outcome)>::empty());
        }
        r
    }

    /// The entries.
    pub fn data(&self) -> (data: &Vec<(Action, Result<GameState, GameError>)>)
        ensures
            entries_view(data@) == self@,
    {
        &self.data
    }

    /// Tries every candidate of the game's position on a copy of it and keeps
    /// what comes of each. The game itself is left alone.
    pub fn from_game(game: &Game) -> (r: Self)
        ensures
            r@ == enumeration(game@.state),
    {
        let ghost state = game@.state;
        let mut data: Vec<(Action, Result<GameState, GameError>)> = Vec::new();
        data.push((Action::Draw, game.test_action(Action::Draw)));
        data.push((Action::Recycle, game.test_action(Action::Recycle)));
        data.push((Action::Undo, game.test_action(Action::Undo)));
        proof {
            assert(entries_view(data@) =~= outcomes(
                state,
                seq![Action::Draw, Action::Recycle, Action::Undo],
            ));
        }
        let table = game.state();
        let foundations = table.foundation_ids();
        let columns = table.column_ids();
        try_moves(&mut data, game, 1, PileId::Waste, &foundations);
        try_moves(&mut data, game, 1, PileId::Waste, &columns);
        let ghost fixed = seq![Action::Draw, Action::Recycle, Action::Undo] + moves_onto(
            1,
            PileId::Waste,
            foundations@,
        ) + moves_onto(1, PileId::Waste, columns@);
        proof {
            assert(entries_view(data@) =~= outcomes(state, fixed));
        }
        // the top card of each foundation onto each column
        let mut f: usize = 0;
        proof {
            assert(foundations@.subrange(0, 0) =~= Seq::<PileId>::empty());
            assert(fixed + Seq::<Action>::empty() =~= fixed);
        }
        while f < foundations.len()
            invariant
                f <= foundations.len(),
                state == game@.state,
                entries_view(data@) == outcomes(
                    state,
                    fixed + single_moves(foundations@.subrange(0, f as int), columns@),
                ),
            decreases foundations.len() - f,
        {
            let ghost before = fixed + single_moves(foundations@.subrange(0, f as int), columns@);
            proof {
                assert(foundations@.subrange(0, f + 1).drop_last() =~= foundations@.subrange(
                    0,
                    f as int,
                ));
                assert(foundations@.subrange(0, f + 1).last() == foundations@[f as int]);
            }
            try_moves(&mut data, game, 1, foundations[f], &columns);
            proof {
                assert(entries_view(data@) =~= outcomes(
                    state,
                    fixed + single_moves(foundations@.subrange(0, f + 1), columns@),
                ));
            }
            f = f + 1;
        }
        proof {
            assert(foundations@.subrange(0, foundations@.len() as int) =~= foundations@);
        }
        let ghost singles = fixed + single_moves(foundations@, columns@);
        // every stack of every column
        let mut c: usize = 0;
        proof {
            assert(columns@.subrange(0, 0) =~= Seq::<PileId>::empty());
            assert(singles + Seq::<Action>::empty() =~= singles);
        }
        while c < columns.len()
            invariant
                c <= columns.len(),
                state == game@.state,
                state == table@,
                entries_view(data@) == outcomes(
                    state,
                    singles + column_moves(
                        state,
                        columns@.subrange(0, c as int),
                        foundations@,
                        columns@,
                    ),
                ),
            decreases columns.len() - c,
        {
            let from = columns[c];
            let ghost before = singles + column_moves(
                state,
                columns@.subrange(0, c as int),
                foundations@,
                columns@,
            );
            proof {
                assert(columns@.subrange(0, c + 1).drop_last() =~= columns@.subrange(0, c as int));
                assert(columns@.subrange(0, c + 1).last() == from);
            }
            match table.pile(from) {
                Ok(pile) => {
                    let len = pile.len();
                    let mut start: usize = 0;
                    proof {
                        assert(before + Seq::<Action>::empty() =~= before);
                    }
                    while start < len
                        invariant
                            start <= len,
                            state == game@.state,
                            entries_view(data@) == outcomes(
                                state,
                                before + stack_moves(
                                    from,
                                    len as nat,
                                    start as nat,
                                    foundations@,
                                    columns@,
                                ),
                            ),
                        decreases len - start,
                    {
                        let n = len - start;
                        try_moves(&mut data, game, n, from, &foundations);
                        try_moves(&mut data, game, n, from, &columns);
                        proof {
                            assert(entries_view(data@) =~= outcomes(
                                state,
                                before + stack_moves(
                                    from,
                                    len as nat,
                                    (start + 1) as nat,
                                    foundations@,
                                    columns@,
                                ),
                            ));
                        }
                        start = start + 1;
                    }
                },
                Err(_) => {
                    proof {
                        assert(before + Seq::<Action>::empty() =~= before);
                    }
                },
            }
            proof {
                assert(entries_view(data@) =~= outcomes(
                    state,
                    singles + column_moves(
                        state,
                        columns@.subrange(0, c + 1),
                        foundations@,
                        columns@,
                    ),
                ));
            }
            c = c + 1;
        }
        proof {
            assert(columns@.subrange(0, columns@.len() as int) =~= columns@);
        }
        Self { data }
    }

    /// Only the actions that succeeded, in the order of trial.
    pub fn all_valid(&self) -> (r: Vec<Action>)
        ensures
            r@ == valid_actions(self@),
    {
        let mut r: Vec<Action> = Vec::new();
        let mut i: usize = 0;
        proof {
            assert(self@.subrange(0, 0) =~= Seq::<(Action, Outcome)>::empty());
        }
        while i < self.data.len()
            invariant
                i <= self.data.len(),
                self@ == entries_view(self.data@),
                r@ == valid_actions(self@.subrange(0, i as int)),
            decreases self.data.len() - i,
        {
            proof {
                assert(self@.subrange(0, i + 1).drop_last() =~= self@.subrange(0, i as int));
                assert(self@.subrange(0, i + 1).last() == self@[i as int]);
            }
            match &self.data[i].1 {
                Ok(_) => {
                    r.push(self.data[i].0.clone());
                },
                Err(_) => {},
            }
            i = i + 1;
        }
        proof {
            assert(self@.subrange(0, self@.len() as int) =~= self@);
        }
        r
    }
}

} // verus!
