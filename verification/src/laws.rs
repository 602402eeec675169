//! Laws of the game that follow from its rules.

use crate::action::Action;
use crate::actions_results::{
    candidates, column_moves, enumeration, moves_onto, single_moves, stack_moves, valid_actions,
    Outcome,
};
use crate::card::{deck_order, Card, Face, Rank, Suit};
use crate::deal::{
    dealt, lemma_dealt_holds_full_deck, lemma_dealt_is_well_formed, lemma_dealt_sizes,
};
use crate::error::PileErrorView;
use crate::game::{shuffles_a_full_deck, GameView};
use crate::game_error::GameErrorView;
use crate::game_state::{keys_below, lemma_keys_below, top_cards, GameStateView};
use crate::invariants::{
    follows_in_column, holds_full_deck, lemma_foundation_holds_a_suit,
    lemma_occurrences_in_empty, occurrences, occurrences_in, occurrences_on, well_formed,
};
use crate::pile::{face_up_run, PileId, PileKind, PileView, Side};
use crate::shuffle::seeded_shuffle;
use vstd::prelude::*;

verus! {

/// Undoing a successful draw, recycle or move brings back the table and the
/// history from before it; and where the results were those of the table,
/// the whole session.
pub proof fn lemma_undo_restores(game: GameView, action: Action)
    requires
        action is Draw || action is Recycle || action is Move,
        game.handle(action) is Ok,
    ensures
        game.handle(action)->Ok_0.handle(Action::Undo) matches Ok(back) && back.state == game.state
            && back.history == game.history && back.seed == game.seed && (game.results
            == enumeration(game.state) ==> back == game),
{
    let after = game.handle(action)->Ok_0;
    assert(after.history.last() == game.state);
    assert(after.history.drop_last() =~= game.history);
}

/// An undo is not put on the history: undoing twice goes two actions back.
pub proof fn lemma_undo_is_not_undone(game: GameView)
    requires
        game.handle(Action::Undo) is Ok,
    ensures
        game.handle(Action::Undo)->Ok_0.history == game.history.drop_last(),
        game.handle(Action::Undo)->Ok_0.state == game.history.last(),
{
}

/// A reset always succeeds, whatever was played before: it leaves the
/// session at the start of the game of its seed, with nothing to undo.
pub proof fn lemma_reset_starts_again(game: GameView)
    ensures
        game.handle(Action::Reset) == Ok::<GameView, GameErrorView>(GameView::fresh(game.seed)),
        game.handle(Action::Reset)->Ok_0.seed == game.seed,
        game.handle(Action::Reset)->Ok_0.state == dealt(seeded_shuffle(game.seed, deck_order())),
        game.handle(Action::Reset)->Ok_0.history == Seq::<GameStateView>::empty(),
        game.handle(Action::Reset)->Ok_0.handle(Action::Undo) == Err::<GameView, GameErrorView>(
            GameErrorView::UndoUnavailable,
        ),
        game.handle(Action::Reset)->Ok_0.handle(Action::Reset) == game.handle(Action::Reset),
{
}

/// The game of a seed that shuffles a full deck starts with one to seven
/// cards in the columns, the top one of each face up and the others face
/// down, twenty-four cards in the stock, an empty waste and empty
/// foundations; on a table that is well formed and holds a full deck.
pub proof fn lemma_fresh_session(seed: u64)
    requires
        shuffles_a_full_deck(seed),
    ensures
        seeded_shuffle(seed, deck_order()).len() == 52,
        GameView::fresh(seed).sound(),
        forall|k: u8|
            k < 7 ==> {
                let cards = (#[trigger] GameView::fresh(seed).state.columns[k]).cards;
                &&& cards.len() == k + 1
                &&& cards.last().face == Face::Up
                &&& forall|i: int| 0 <= i < k ==> (#[trigger] cards[i]).face == Face::Down
            },
        GameView::fresh(seed).state.stock.cards.len() == 24,
        GameView::fresh(seed).state.waste.cards.len() == 0,
        forall|k: u8|
            k < 4 ==> (#[trigger] GameView::fresh(seed).state.foundations[k]).cards.len() == 0,
        valid_actions(GameView::fresh(seed).results).contains(Action::Draw),
{
    let deck = seeded_shuffle(seed, deck_order());
    lemma_dealt_holds_full_deck(deck);
    lemma_dealt_is_well_formed(deck);
    lemma_dealt_sizes(deck);
    lemma_fresh_deal_offers_a_draw(deck);
}

/// Two sessions with the same seed start from the same deal.
pub proof fn lemma_same_seed_same_deal(a: GameView, b: GameView)
    requires
        a.seed == b.seed,
    ensures
        GameView::fresh(a.seed) == GameView::fresh(b.seed),
        GameView::fresh(a.seed).state == GameView::fresh(b.seed).state,
{
}

/// A draw is refused exactly when the stock is empty.
pub proof fn lemma_draw_needs_stock(state: GameStateView)
    ensures
        state.stock.cards.len() == 0 ==> state.draw() == Err::<GameStateView, GameErrorView>(
            GameErrorView::NoCardToDraw,
        ),
        state.stock.cards.len() > 0 ==> state.draw() is Ok,
        state.draw() matches Ok(after) ==> after.stock.cards.len() == state.stock.cards.len() - 1
            && after.waste.cards.len() == state.waste.cards.len() + 1 && after.waste.cards.last()
            == state.stock.cards.last().with_face(Face::Up) && after.columns == state.columns
            && after.foundations == state.foundations,
{
}

/// A recycle needs cards in the waste and none in the stock.
pub proof fn lemma_recycle_conditions(state: GameStateView)
    ensures
        state.waste.cards.len() == 0 ==> state.recycle() == Err::<GameStateView, GameErrorView>(
            GameErrorView::NothingToRecycle,
        ),
        state.waste.cards.len() > 0 && state.stock.cards.len() > 0 ==> state.recycle() == Err::<
            GameStateView,
            GameErrorView,
        >(GameErrorView::StockNotEmpty),
        state.waste.cards.len() > 0 && state.stock.cards.len() == 0 ==> state.recycle() is Ok,
{
}

/// After a recycle the cards are drawn again in the order in which they were
/// drawn before: the card that lay at the bottom of the waste is on top of
/// the stock.
pub proof fn lemma_recycle_keeps_draw_order(state: GameStateView, i: int)
    requires
        state.recycle() is Ok,
        0 <= i < state.waste.cards.len(),
    ensures
        state.recycle()->Ok_0.stock.cards.len() == state.waste.cards.len(),
        state.recycle()->Ok_0.stock.cards[state.waste.cards.len() - 1 - i]
            == state.waste.cards[i].with_face(Face::Down),
{
}

/// No move leaves the stock, and none ends on the stock or the waste,
/// however many cards are asked for.
pub proof fn lemma_moves_never_allowed(state: GameStateView, n: nat, from: PileId, to: PileId)
    requires
        from == PileId::Stock || to == PileId::Stock || to == PileId::Waste || from == to,
    ensures
        state.move_cards(n, from, to) == Err::<GameStateView, GameErrorView>(
            GameErrorView::InvalidMove,
        ),
{
}

/// The top `face_up_run` cards of a pile are face up.
pub proof fn lemma_face_up_run(cards: Seq<Card>)
    ensures
        face_up_run(cards) <= cards.len(),
        forall|i: int|
            cards.len() - face_up_run(cards) <= i < cards.len() ==> (#[trigger] cards[i]).face
                == Face::Up,
        face_up_run(cards) < cards.len() ==> cards[cards.len() - 1 - face_up_run(cards)].face
            == Face::Down,
    decreases cards.len(),
{
    if cards.len() > 0 && cards.last().face == Face::Up {
        lemma_face_up_run(cards.drop_last());
        assert forall|i: int|
            cards.len() - face_up_run(cards) <= i < cards.len() implies (#[trigger] cards[i]).face
            == Face::Up by {
            if i < cards.len() - 1 {
                assert(cards[i] == cards.drop_last()[i]);
            }
        }
        if face_up_run(cards) < cards.len() {
            assert(cards[cards.len() - 1 - face_up_run(cards)] == cards.drop_last()[cards.len() - 1
                - face_up_run(cards)]);
        }
    }
}

/// More cards than lie face up at the top of a column cannot be moved out of
/// it.
pub proof fn lemma_move_beyond_the_run(state: GameStateView, n: nat, k: u8, to: PileId)
    requires
        state.columns.contains_key(k),
        state.columns[k].kind == PileKind::Column,
        n > face_up_run(state.columns[k].cards),
        to != PileId::Column(k),
        to != PileId::Stock,
        to != PileId::Waste,
    ensures
        state.move_cards(n, PileId::Column(k), to) == Err::<GameStateView, GameErrorView>(
            GameErrorView::PileError(
                PileErrorView::InvalidTakeTooMany {
                    pile: state.columns[k].id,
                    requested: n,
                    max: face_up_run(state.columns[k].cards),
                },
            ),
        ),
{
}

/// A card that follows another in a column is accepted on top of it.
pub proof fn lemma_follower_is_accepted(pile: PileView, card: Card)
    requires
        pile.kind == PileKind::Column,
        pile.cards.len() > 0,
    ensures
        pile.rejection(card) is None <==> follows_in_column(pile.cards.last(), card),
{
    let top = pile.cards.last();
    top.rank.lemma_value_round_trip();
    card.rank.lemma_value_round_trip();
    if top.rank != Rank::Ace {
        let expected = Rank::from_value(top.rank.value() - 1);
        expected.lemma_value_round_trip();
        assert(expected.value() == top.rank.value() - 1);
    }
}

/// Cards that follow one another are accepted by a column as soon as the
/// first of them is.
proof fn lemma_chain_is_accepted(pile: PileView, cards: Seq<Card>)
    requires
        pile.kind == PileKind::Column,
        cards.len() > 0,
        forall|i: int| 0 <= i < cards.len() - 1 ==> follows_in_column(#[trigger] cards[i], cards[i + 1]),
    ensures
        pile.place(cards, Face::Up) is Ok <==> pile.rejection(cards[0]) is None,
    decreases cards.len(),
{
    if pile.rejection(cards[0]) is None && cards.len() > 1 {
        let next = pile.with_placed(cards[0], Face::Up);
        let rest = cards.subrange(1, cards.len() as int);
        assert(follows_in_column(cards[0], cards[1]));
        assert(follows_in_column(next.cards.last(), rest[0]));
        lemma_follower_is_accepted(next, rest[0]);
        assert forall|i: int| 0 <= i < rest.len() - 1 implies follows_in_column(
            #[trigger] rest[i],
            rest[i + 1],
        ) by {
            assert(follows_in_column(cards[i + 1], cards[i + 2]));
        }
        lemma_chain_is_accepted(next, rest);
    } else if pile.rejection(cards[0]) is None {
        let next = pile.with_placed(cards[0], Face::Up);
        let rest = cards.subrange(1, cards.len() as int);
        assert(next.place(rest, Face::Up) == Ok::<PileView, PileErrorView>(next));
    }
}

/// Between two columns whose cards lie in order, a stack moves exactly when
/// it is no larger than the face-up run it comes from and its lowest card is
/// accepted by the target: a king on an empty column, and otherwise the card
/// one rank below the target's top card and of the other colour.
pub proof fn lemma_stack_moves_by_its_lowest_card(state: GameStateView, n: nat, j: u8, k: u8)
    requires
        well_formed(state),
        state.columns.contains_key(j),
        state.columns.contains_key(k),
        j != k,
        n > 0,
    ensures
        state.move_cards(n, PileId::Column(j), PileId::Column(k)) is Ok <==> n <= face_up_run(
            state.columns[j].cards,
        ) && state.columns[k].rejection(top_cards(state.columns[j], n)[0]) is None,
        state.columns[k].cards.len() == 0 && n <= state.columns[j].cards.len() ==> (
        state.columns[k].rejection(top_cards(state.columns[j], n)[0]) is None <==> top_cards(
            state.columns[j],
            n,
        )[0].rank == Rank::King),
        state.columns[k].cards.len() > 0 && n <= state.columns[j].cards.len() ==> (
        state.columns[k].rejection(top_cards(state.columns[j], n)[0]) is None <==> follows_in_column(
            state.columns[k].cards.last(),
            top_cards(state.columns[j], n)[0],
        )),
        state.move_cards(n, PileId::Column(j), PileId::Column(k)) matches Ok(after) ==> {
            let left = after.columns[j].cards;
            left.len() == state.columns[j].cards.len() - n && (left.len() > 0 ==> left.last().face
                == Face::Up)
        },
{
    let source = state.columns[j];
    let target = state.columns[k];
    lemma_face_up_run(source.cards);
    if n <= face_up_run(source.cards) {
        let moved = top_cards(source, n);
        assert forall|i: int| 0 <= i < moved.len() - 1 implies follows_in_column(
            #[trigger] moved[i],
            moved[i + 1],
        ) by {
            let at = source.cards.len() - n + i;
            assert(moved[i] == source.cards[at]);
            assert(moved[i + 1] == source.cards[at + 1]);
            assert(source.cards[at].face == Face::Up);
        }
        lemma_chain_is_accepted(target, moved);
    }
    if target.cards.len() > 0 && n <= source.cards.len() {
        lemma_follower_is_accepted(target, top_cards(source, n)[0]);
    }
}

/// The top card of the waste moves to a foundation exactly when it is the
/// next card of the foundation's suit: the ace onto an empty foundation, and
/// otherwise the card one rank above the foundation's top card. Any other
/// card of the waste is refused by the foundation as a card it cannot
/// accept.
pub proof fn lemma_waste_to_foundation(state: GameStateView, k: u8)
    requires
        well_formed(state),
        state.foundations.contains_key(k),
        state.waste.cards.len() > 0,
    ensures
        ({
            let card = state.waste.cards.last();
            let foundation = state.foundations[k];
            let moved = state.move_cards(1, PileId::Waste, PileId::Foundation(k));
            &&& foundation.kind matches PileKind::Foundation(suit) && (moved is Ok <==> card.suit
                == suit && card.rank.value() == foundation.cards.len() + 1)
            &&& moved matches Err(e) ==> e matches GameErrorView::PileError(
                PileErrorView::CannotAccept { pile, cards, .. },
            ) && pile == PileId::Foundation(k) && cards == seq![card]
            &&& moved matches Ok(after) ==> after.foundations[k].cards
                == foundation.cards.push(card.with_face(Face::Up)) && after.waste.cards
                == state.waste.cards.drop_last()
        }),
{
    let card = state.waste.cards.last();
    let foundation = state.foundations[k];
    let moved = top_cards(state.waste, 1);
    assert(moved =~= seq![card]);
    assert(moved.subrange(1, 1) =~= Seq::<Card>::empty());
    card.rank.lemma_value_round_trip();
    if foundation.cards.len() > 0 {
        let top = foundation.cards.last();
        top.rank.lemma_value_round_trip();
        lemma_foundation_holds_a_suit(foundation.cards, foundation.kind->Foundation_0);
        if top.rank != Rank::King {
            Rank::from_value(top.rank.value() + 1).lemma_value_round_trip();
        }
    }
    match foundation.place_one(card, Face::Up) {
        Ok(next) => {
            assert(next.place(moved.subrange(1, 1), Face::Up) == Ok::<PileView, PileErrorView>(
                next,
            ));
            assert(state.waste.without(1, Side::Top).cards =~= state.waste.cards.drop_last());
        },
        Err(_) => {},
    }
}

/// A won game has every card on the foundations.
pub proof fn lemma_won_game_is_on_the_foundations(state: GameStateView, rank: Rank, suit: Suit)
    requires
        state.is_won(),
        holds_full_deck(state),
    ensures
        occurrences_in(state.foundations, 256, rank, suit) == 1,
{
    lemma_occurrences_in_empty(state.columns, 256, rank, suit);
    assert(occurrences_on(state, rank, suit) == 1);
    assert(occurrences(state.stock.cards, rank, suit) == 0);
    assert(occurrences(state.waste.cards, rank, suit) == 0);
}

/// Whether an action is one that the rules do not rule out from the start:
/// a move goes from the waste, a column or a foundation onto another column
/// or foundation.
pub open spec fn plausible(action: Action) -> bool {
    action matches Action::Move { from, to, .. } ==> from != PileId::Stock && from != to && (
    to is Column || to is Foundation)
}

/// The moves onto columns and foundations out of a pile other than the
/// stock are plausible.
proof fn lemma_moves_onto_plausible(n: usize, from: PileId, targets: Seq<PileId>, i: int)
    requires
        from != PileId::Stock,
        forall|t: int| 0 <= t < targets.len() ==> (#[trigger] targets[t]) is Column || targets[t] is Foundation,
        0 <= i < moves_onto(n, from, targets).len(),
    ensures
        plausible(moves_onto(n, from, targets)[i]),
    decreases targets.len(),
{
    if targets.len() > 0 {
        let before = moves_onto(n, from, targets.drop_last());
        if i < before.len() {
            assert forall|t: int| 0 <= t < targets.drop_last().len() implies (
            #[trigger] targets.drop_last()[t]) is Column || targets.drop_last()[t] is Foundation by {
                assert(targets.drop_last()[t] == targets[t]);
            }
            lemma_moves_onto_plausible(n, from, targets.drop_last(), i);
        } else {
            assert(targets.last() == targets[targets.len() - 1]);
        }
    }
}

/// So are the moves of single cards.
proof fn lemma_single_moves_plausible(sources: Seq<PileId>, targets: Seq<PileId>, i: int)
    requires
        forall|t: int| 0 <= t < sources.len() ==> (#[trigger] sources[t]) != PileId::Stock,
        forall|t: int| 0 <= t < targets.len() ==> (#[trigger] targets[t]) is Column || targets[t] is Foundation,
        0 <= i < single_moves(sources, targets).len(),
    ensures
        plausible(single_moves(sources, targets)[i]),
    decreases sources.len(),
{
    if sources.len() > 0 {
        let before = single_moves(sources.drop_last(), targets);
        if i < before.len() {
            assert forall|t: int| 0 <= t < sources.drop_last().len() implies (
            #[trigger] sources.drop_last()[t]) != PileId::Stock by {
                assert(sources.drop_last()[t] == sources[t]);
            }
            lemma_single_moves_plausible(sources.drop_last(), targets, i);
        } else {
            assert(sources.last() == sources[sources.len() - 1]);
            lemma_moves_onto_plausible(1, sources.last(), targets, i - before.len());
        }
    }
}

/// So are the moves of the stacks of one pile.
proof fn lemma_stack_moves_plausible(
    from: PileId,
    len: nat,
    count: nat,
    foundations: Seq<PileId>,
    columns: Seq<PileId>,
    i: int,
)
    requires
        from != PileId::Stock,
        forall|t: int| 0 <= t < foundations.len() ==> (#[trigger] foundations[t]) is Foundation,
        forall|t: int| 0 <= t < columns.len() ==> (#[trigger] columns[t]) is Column,
        0 <= i < stack_moves(from, len, count, foundations, columns).len(),
    ensures
        plausible(stack_moves(from, len, count, foundations, columns)[i]),
    decreases count,
{
    if count > 0 {
        let n = (len - (count - 1)) as usize;
        let before = stack_moves(from, len, (count - 1) as nat, foundations, columns);
        let onto_foundations = moves_onto(n, from, foundations);
        if i < before.len() {
            lemma_stack_moves_plausible(from, len, (count - 1) as nat, foundations, columns, i);
        } else if i < before.len() + onto_foundations.len() {
            lemma_moves_onto_plausible(n, from, foundations, i - before.len());
        } else {
            lemma_moves_onto_plausible(
                n,
                from,
                columns,
                i - before.len() - onto_foundations.len(),
            );
        }
    }
}

/// So are the moves of the stacks of every column.
proof fn lemma_column_moves_plausible(
    state: GameStateView,
    sources: Seq<PileId>,
    foundations: Seq<PileId>,
    columns: Seq<PileId>,
    i: int,
)
    requires
        forall|t: int| 0 <= t < sources.len() ==> (#[trigger] sources[t]) != PileId::Stock,
        forall|t: int| 0 <= t < foundations.len() ==> (#[trigger] foundations[t]) is Foundation,
        forall|t: int| 0 <= t < columns.len() ==> (#[trigger] columns[t]) is Column,
        0 <= i < column_moves(state, sources, foundations, columns).len(),
    ensures
        plausible(column_moves(state, sources, foundations, columns)[i]),
    decreases sources.len(),
{
    if sources.len() > 0 {
        let before = column_moves(state, sources.drop_last(), foundations, columns);
        if i < before.len() {
            assert forall|t: int| 0 <= t < sources.drop_last().len() implies (
            #[trigger] sources.drop_last()[t]) != PileId::Stock by {
                assert(sources.drop_last()[t] == sources[t]);
            }
            lemma_column_moves_plausible(state, sources.drop_last(), foundations, columns, i);
        } else {
            let from = sources.last();
            assert(from == sources[sources.len() - 1]);
            match state.pile(from) {
                Ok(pile) => {
                    lemma_stack_moves_plausible(
                        from,
                        pile.cards.len(),
                        pile.cards.len(),
                        foundations,
                        columns,
                        i - before.len(),
                    );
                },
                Err(_) => {},
            }
        }
    }
}

/// No candidate is a move that leaves the stock, ends on the stock or the
/// waste, or goes from a pile onto itself.
pub proof fn lemma_candidates_are_plausible(state: GameStateView, i: int)
    requires
        0 <= i < candidates(state).len(),
    ensures
        plausible(candidates(state)[i]),
{
    let foundations = state.foundation_ids();
    let columns = state.column_ids();
    let a = seq![Action::Draw, Action::Recycle, Action::Undo];
    let b = moves_onto(1, PileId::Waste, foundations);
    let c = moves_onto(1, PileId::Waste, columns);
    let d = single_moves(foundations, columns);
    let e = column_moves(state, columns, foundations, columns);
    assert(candidates(state) == a + b + c + d + e);
    if i < a.len() {
    } else if i < a.len() + b.len() {
        lemma_moves_onto_plausible(1, PileId::Waste, foundations, i - a.len());
    } else if i < a.len() + b.len() + c.len() {
        lemma_moves_onto_plausible(1, PileId::Waste, columns, i - a.len() - b.len());
    } else if i < a.len() + b.len() + c.len() + d.len() {
        lemma_single_moves_plausible(foundations, columns, i - a.len() - b.len() - c.len());
    } else {
        lemma_column_moves_plausible(
            state,
            columns,
            foundations,
            columns,
            i - a.len() - b.len() - c.len() - d.len(),
        );
    }
}

/// An action is among the valid ones exactly when it is an entry that
/// succeeded.
pub proof fn lemma_valid_actions(entries: Seq<(Action, Outcome)>, action: Action)
    ensures
        valid_actions(entries).contains(action) <==> exists|i: int|
            0 <= i < entries.len() && (#[trigger] entries[i]).0 == action && entries[i].1 is Ok,
    decreases entries.len(),
{
    if entries.len() > 0 {
        let rest = entries.drop_last();
        lemma_valid_actions(rest, action);
        let valid = valid_actions(entries);
        let before = valid_actions(rest);
        if valid.contains(action) {
            let at = choose|at: int| 0 <= at < valid.len() && valid[at] == action;
            if entries.last().1 is Ok && at == valid.len() - 1 {
                assert(entries[entries.len() - 1].0 == action);
            } else {
                assert(before[at] == action);
                let i = choose|i: int|
                    0 <= i < rest.len() && (#[trigger] rest[i]).0 == action && rest[i].1 is Ok;
                assert(entries[i] == rest[i]);
            }
        }
        if exists|i: int|
            0 <= i < entries.len() && (#[trigger] entries[i]).0 == action && entries[i].1 is Ok {
            let i = choose|i: int|
                0 <= i < entries.len() && (#[trigger] entries[i]).0 == action && entries[i].1 is Ok;
            if i < rest.len() {
                assert(rest[i] == entries[i]);
                let at = choose|at: int| 0 <= at < before.len() && before[at] == action;
                assert(valid[at] == action);
            } else {
                assert(valid[valid.len() - 1] == action);
            }
        }
    }
}

/// In every position the valid actions hold no move that leaves the stock
/// or ends on the stock or the waste.
pub proof fn lemma_valid_moves_avoid_the_stock(state: GameStateView, action: Action)
    requires
        valid_actions(enumeration(state)).contains(action),
    ensures
        plausible(action),
{
    let entries = enumeration(state);
    lemma_valid_actions(entries, action);
    let i = choose|i: int|
        0 <= i < entries.len() && (#[trigger] entries[i]).0 == action && entries[i].1 is Ok;
    lemma_candidates_are_plausible(state, i);
}

/// Right after the deal of a deck of more than twenty-eight cards a draw is
/// among the valid actions.
pub proof fn lemma_fresh_deal_offers_a_draw(deck: Seq<Card>)
    requires
        deck.len() > 28,
    ensures
        valid_actions(enumeration(dealt(deck))).contains(Action::Draw),
{
    let state = dealt(deck);
    let entries = enumeration(state);
    assert(candidates(state)[0] == Action::Draw);
    assert(entries[0].0 == Action::Draw);
    assert(entries[0].1 is Ok);
    lemma_valid_actions(entries, Action::Draw);
}

/// What is among cards laid end to end is among the first or the second.
proof fn lemma_contains_either<A>(a: Seq<A>, b: Seq<A>, x: A)
    ensures
        (a + b).contains(x) <==> a.contains(x) || b.contains(x),
{
    if (a + b).contains(x) {
        let i = choose|i: int| 0 <= i < (a + b).len() && (a + b)[i] == x;
        if i < a.len() {
            assert(a[i] == x);
        } else {
            assert(b[i - a.len()] == x);
        }
    }
    if a.contains(x) {
        let i = choose|i: int| 0 <= i < a.len() && a[i] == x;
        assert((a + b)[i] == x);
    }
    if b.contains(x) {
        let i = choose|i: int| 0 <= i < b.len() && b[i] == x;
        assert((a + b)[a.len() + i] == x);
    }
}

/// What is among a row with one more at its end is in the row or is that
/// one.
proof fn lemma_contains_pushed<A>(a: Seq<A>, last: A, x: A)
    ensures
        a.push(last).contains(x) <==> a.contains(x) || x == last,
{
    assert(a.push(last) =~= a + seq![last]);
    lemma_contains_either(a, seq![last], x);
    if seq![last].contains(x) {
        let i = choose|i: int| 0 <= i < seq![last].len() && seq![last][i] == x;
        assert(x == last);
    }
    if x == last {
        assert(seq![last][0] == x);
    }
}

/// The names of the columns are those of the columns that are there; and
/// likewise for the foundations.
pub proof fn lemma_ids_name_the_piles(state: GameStateView, id: PileId)
    ensures
        state.column_ids().contains(id) <==> id is Column && state.columns.contains_key(
            id->Column_0,
        ),
        state.foundation_ids().contains(id) <==> id is Foundation
            && state.foundations.contains_key(id->Foundation_0),
        forall|i: int, j: int|
            0 <= i < j < state.column_ids().len() ==> state.column_ids()[i]->Column_0
                < state.column_ids()[j]->Column_0,
        forall|i: int, j: int|
            0 <= i < j < state.foundation_ids().len() ==> state.foundation_ids()[i]->Foundation_0
                < state.foundation_ids()[j]->Foundation_0,
{
    let columns = keys_below(state.columns.dom(), 256);
    let foundations = keys_below(state.foundations.dom(), 256);
    lemma_keys_below(state.columns.dom(), 256);
    lemma_keys_below(state.foundations.dom(), 256);
    if state.column_ids().contains(id) {
        let i = choose|i: int| 0 <= i < state.column_ids().len() && state.column_ids()[i] == id;
        assert(state.columns.dom().contains(columns[i]));
    }
    if id is Column && state.columns.contains_key(id->Column_0) {
        let k = id->Column_0;
        assert(state.columns.dom().contains(k));
        let i = choose|i: int| 0 <= i < columns.len() && columns[i] == k;
        assert(state.column_ids()[i] == id);
    }
    if state.foundation_ids().contains(id) {
        let i = choose|i: int|
            0 <= i < state.foundation_ids().len() && state.foundation_ids()[i] == id;
        assert(state.foundations.dom().contains(foundations[i]));
    }
    if id is Foundation && state.foundations.contains_key(id->Foundation_0) {
        let k = id->Foundation_0;
        assert(state.foundations.dom().contains(k));
        let i = choose|i: int| 0 <= i < foundations.len() && foundations[i] == k;
        assert(state.foundation_ids()[i] == id);
    }
}

/// Which moves `moves_onto` holds.
proof fn lemma_moves_onto_holds(n: usize, from: PileId, targets: Seq<PileId>, action: Action)
    ensures
        moves_onto(n, from, targets).contains(action) <==> (action matches Action::Move {
            num_cards,
            from: source,
            to,
        } && num_cards == n && source == from && to != from && targets.contains(to)),
    decreases targets.len(),
{
    if targets.len() > 0 {
        let rest = targets.drop_last();
        let last = targets.last();
        lemma_moves_onto_holds(n, from, rest, action);
        assert(targets =~= rest.push(last));
        if action is Move {
            lemma_contains_pushed(rest, last, action->to);
        }
        if last != from {
            lemma_contains_pushed(
                moves_onto(n, from, rest),
                Action::Move { num_cards: n, from, to: last },
                action,
            );
        }
    } else {
        assert(!(moves_onto(n, from, targets).contains(action)));
        assert(!(action is Move && targets.contains(action->to)));
    }
}

/// Which moves `single_moves` holds.
proof fn lemma_single_moves_hold(sources: Seq<PileId>, targets: Seq<PileId>, action: Action)
    ensures
        single_moves(sources, targets).contains(action) <==> (action matches Action::Move {
            num_cards,
            from,
            to,
        } && num_cards == 1 && sources.contains(from) && to != from && targets.contains(to)),
    decreases sources.len(),
{
    if sources.len() > 0 {
        let rest = sources.drop_last();
        let last = sources.last();
        lemma_single_moves_hold(rest, targets, action);
        lemma_moves_onto_holds(1, last, targets, action);
        lemma_contains_either(single_moves(rest, targets), moves_onto(1, last, targets), action);
        assert(sources =~= rest.push(last));
        if action is Move {
            lemma_contains_pushed(rest, last, action->from);
        }
    } else {
        assert(!(single_moves(sources, targets).contains(action)));
        assert(!(action is Move && sources.contains(action->from)));
    }
}

/// Which moves `stack_moves` holds.
proof fn lemma_stack_moves_hold(
    from: PileId,
    len: nat,
    count: nat,
    foundations: Seq<PileId>,
    columns: Seq<PileId>,
    action: Action,
)
    requires
        count <= len <= usize::MAX,
    ensures
        stack_moves(from, len, count, foundations, columns).contains(action) <==> (
        action matches Action::Move { num_cards, from: source, to } && len - count < num_cards
            <= len && source == from && to != from && (foundations.contains(to)
            || columns.contains(to))),
    decreases count,
{
    if count > 0 {
        let n = (len - (count - 1)) as usize;
        let before = stack_moves(from, len, (count - 1) as nat, foundations, columns);
        let onto_foundations = moves_onto(n, from, foundations);
        let onto_columns = moves_onto(n, from, columns);
        lemma_stack_moves_hold(from, len, (count - 1) as nat, foundations, columns, action);
        lemma_moves_onto_holds(n, from, foundations, action);
        lemma_moves_onto_holds(n, from, columns, action);
        lemma_contains_either(before, onto_foundations, action);
        lemma_contains_either(before + onto_foundations, onto_columns, action);
    } else {
        assert(!(stack_moves(from, len, count, foundations, columns).contains(action)));
    }
}

/// Which moves `column_moves` holds.
proof fn lemma_column_moves_hold(
    state: GameStateView,
    sources: Seq<PileId>,
    foundations: Seq<PileId>,
    columns: Seq<PileId>,
    action: Action,
)
    requires
        forall|i: int|
            0 <= i < sources.len() ==> (state.pile(#[trigger] sources[i]) matches Ok(pile)
                ==> pile.cards.len() <= usize::MAX),
    ensures
        column_moves(state, sources, foundations, columns).contains(action) <==> (
        action matches Action::Move { num_cards, from, to } && sources.contains(from) && (
        state.pile(from) matches Ok(pile) && 1 <= num_cards <= pile.cards.len()) && to != from && (
        foundations.contains(to) || columns.contains(to))),
    decreases sources.len(),
{
    if sources.len() > 0 {
        let rest = sources.drop_last();
        let last = sources.last();
        assert forall|i: int| 0 <= i < rest.len() implies (state.pile(#[trigger] rest[i]) matches Ok(
            pile,
        ) ==> pile.cards.len() <= usize::MAX) by {
            assert(rest[i] == sources[i]);
        }
        lemma_column_moves_hold(state, rest, foundations, columns, action);
        let before = column_moves(state, rest, foundations, columns);
        assert(last == sources[sources.len() - 1]);
        let stacks = match state.pile(last) {
            Ok(pile) => stack_moves(last, pile.cards.len(), pile.cards.len(), foundations, columns),
            Err(_) => Seq::empty(),
        };
        match state.pile(last) {
            Ok(pile) => {
                lemma_stack_moves_hold(
                    last,
                    pile.cards.len(),
                    pile.cards.len(),
                    foundations,
                    columns,
                    action,
                );
            },
            Err(_) => {
                assert(!(stacks.contains(action)));
            },
        }
        lemma_contains_either(before, stacks, action);
        assert(sources =~= rest.push(last));
        if action is Move {
            lemma_contains_pushed(rest, last, action->from);
        }
    } else {
        assert(!(column_moves(state, sources, foundations, columns).contains(action)));
        assert(!(action is Move && sources.contains(action->from)));
    }
}

/// Whether a pile of the table is one of its columns or foundations.
pub open spec fn is_target(state: GameStateView, id: PileId) -> bool {
    match id {
        PileId::Column(k) => state.columns.contains_key(k),
        PileId::Foundation(k) => state.foundations.contains_key(k),
        _ => false,
    }
}

/// The candidates of a position are exactly these: draw, recycle and undo;
/// the move of one card from the waste onto any column or foundation; the
/// move of one card from any foundation onto any column; and the move of
/// any number of cards that a column holds, from one upwards, from that
/// column onto any foundation or other column.
pub proof fn lemma_candidates_are_all_moves(state: GameStateView, action: Action)
    requires
        forall|k: u8| #[trigger]
            state.columns.contains_key(k) ==> state.columns[k].cards.len() <= usize::MAX,
    ensures
        candidates(state).contains(action) <==> match action {
            Action::Draw | Action::Recycle | Action::Undo => true,
            Action::Reset => false,
            Action::Move { num_cards, from, to } => is_target(state, to) && to != from && match from {
                PileId::Stock => false,
                PileId::Waste => num_cards == 1,
                PileId::Foundation(k) => state.foundations.contains_key(k) && num_cards == 1
                    && to is Column,
                PileId::Column(k) => state.columns.contains_key(k) && 1 <= num_cards
                    <= state.columns[k].cards.len(),
            },
        },
{
    let foundations = state.foundation_ids();
    let columns = state.column_ids();
    let a = seq![Action::Draw, Action::Recycle, Action::Undo];
    let b = moves_onto(1, PileId::Waste, foundations);
    let c = moves_onto(1, PileId::Waste, columns);
    let d = single_moves(foundations, columns);
    let e = column_moves(state, columns, foundations, columns);
    assert(candidates(state) == a + b + c + d + e);
    lemma_contains_either(a + b + c + d, e, action);
    lemma_contains_either(a + b + c, d, action);
    lemma_contains_either(a + b, c, action);
    lemma_contains_either(a, b, action);
    if a.contains(action) {
        let i = choose|i: int| 0 <= i < a.len() && a[i] == action;
        assert(action is Draw || action is Recycle || action is Undo);
    }
    assert(a[0] == Action::Draw && a[1] == Action::Recycle && a[2] == Action::Undo);
    lemma_moves_onto_holds(1, PileId::Waste, foundations, action);
    lemma_moves_onto_holds(1, PileId::Waste, columns, action);
    lemma_single_moves_hold(foundations, columns, action);
    assert forall|i: int| 0 <= i < columns.len() implies (state.pile(#[trigger] columns[i]) matches Ok(
        pile,
    ) ==> pile.cards.len() <= usize::MAX) by {
        lemma_ids_name_the_piles(state, columns[i]);
        assert(columns.contains(columns[i]));
    }
    lemma_column_moves_hold(state, columns, foundations, columns, action);
    if action is Move {
        lemma_ids_name_the_piles(state, action->from);
        lemma_ids_name_the_piles(state, action->to);
    }
}

} // verus!
