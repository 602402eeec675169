//! Dealing a deck onto the table.

use crate::card::{deck_order, Card, Face, Rank, Suit};
use crate::column::{top_revealed, Column};
use crate::foundation::{empty_foundation, Foundation};
use crate::game_state::{GameState, GameStateView};
use crate::invariants::{
    holds_full_deck, in_order, lemma_new_deck_is_full, lemma_occurrences_add,
    lemma_occurrences_ignore_faces, lemma_occurrences_in_beyond, lemma_occurrences_in_empty,
    lemma_occurrences_of_permutation, lemma_occurrences_reverse, occurrences, occurrences_in,
    occurrences_on, well_formed,
};
use crate::pile::{all_turned, PileBehavior, PileId, PileKind, PileView, Side};
use crate::stock::{stock_of, Stock};
use crate::waste::{waste_of, Waste};
use std::collections::HashMap;
use vstd::prelude::*;

verus! {

broadcast use vstd::std_specs::hash::group_hash_axioms;

/// How many cards of the deck go to the columns before column `k`.
pub open spec fn column_start(k: int) -> int {
    if k <= 0 {
        0
    } else if k == 1 {
        1
    } else if k == 2 {
        3
    } else if k == 3 {
        6
    } else if k == 4 {
        10
    } else if k == 5 {
        15
    } else if k == 6 {
        21
    } else {
        28
    }
}

/// Column `k` after the deal: the next `k + 1` cards of the deck, the first
/// of them face up on top and the others face down beneath it, the last
/// dealt at the bottom.
pub open spec fn dealt_column(deck: Seq<Card>, k: u8) -> PileView {
    PileView {
        id: PileId::Column(k),
        kind: PileKind::Column,
        cards: top_revealed(
            deck.subrange(column_start(k as int), column_start(k as int) + k + 1).reverse(),
        ),
    }
}

/// The suit that foundation `k` collects.
pub open spec fn foundation_suit(k: u8) -> Suit {
    if k == 1 {
        Suit::Spade
    } else if k == 2 {
        Suit::Club
    } else if k == 3 {
        Suit::Diamond
    } else {
        Suit::Heart
    }
}

/// The table after the deal of `deck`: seven columns of one to seven cards,
/// the rest of the deck face down in the stock with the last card of the deck
/// on top, an empty waste and four empty foundations.
pub open spec fn dealt(deck: Seq<Card>) -> GameStateView {
    GameStateView {
        stock: stock_of(all_turned(deck.subrange(28, deck.len() as int), Face::Down)),
        waste: waste_of(Seq::empty()),
        columns: Map::new(|k: u8| k < 7, |k: u8| dealt_column(deck, k)),
        foundations: Map::new(|k: u8| k < 4, |k: u8| empty_foundation(k, foundation_suit(k))),
    }
}

/// Deals `deck` onto an empty table. The deck must hold the twenty-eight
/// cards that the columns need; what is left goes to the stock.
pub fn deal(deck: &Vec<Card>) -> (state: GameState)
    requires
        deck@.len() >= 28,
    ensures
        state@ == dealt(deck@),
{
    let mut columns: HashMap<u8, Column> = HashMap::new();
    let mut next: usize = 0;
    let mut i: u8 = 0;
    while i < 7
        invariant
            i <= 7,
            deck@.len() >= 28,
            next == column_start(i as int),
            forall|k: u8| columns@.contains_key(k) <==> k < i,
            forall|k: u8| k < i ==> (#[trigger] columns@[k])@ == dealt_column(deck@, k),
        decreases 7 - i,
    {
        let mut column = Column::new(i, Vec::new());
        let ghost segment = deck@.subrange(next as int, next + i + 1);
        let mut j: usize = 0;
        while j <= i as usize
            invariant
                j <= i + 1,
                i < 7,
                next == column_start(i as int),
                deck@.len() >= 28,
                segment == deck@.subrange(next as int, next + i + 1),
                column@.id == PileId::Column(i),
                column@.kind == PileKind::Column,
                column@.cards.len() == j,
                forall|m: int|
                    0 <= m < j ==> #[trigger] column@.cards[m] == segment[j - 1 - m].with_face(
                        if j - 1 - m == 0 {
                            Face::Up
                        } else {
                            Face::Down
                        },
                    ),
            decreases i + 1 - j,
        {
            let face = if j == 0 {
                Face::Up
            } else {
                Face::Down
            };
            let ghost before = column@.cards;
            column.raw_insert_card(deck[next + j], Side::Bottom, face);
            proof {
                assert(deck@[next + j] == segment[j as int]);
                assert forall|m: int| 0 <= m < j + 1 implies #[trigger] column@.cards[m]
                    == segment[j - m].with_face(
                    if j - m == 0 {
                        Face::Up
                    } else {
                        Face::Down
                    },
                ) by {
                    if m > 0 {
                        assert(column@.cards[m] == before[m - 1]);
                    }
                }
            }
            j = j + 1;
        }
        proof {
            assert(column@.cards =~= dealt_column(deck@, i).cards);
        }
        columns.insert(i, column);
        next = next + i as usize + 1;
        i = i + 1;
    }
    let mut rest: Vec<Card> = Vec::new();
    let mut m: usize = 28;
    while m < deck.len()
        invariant
            28 <= m <= deck@.len(),
            rest@ == deck@.subrange(28, m as int),
        decreases deck.len() - m,
    {
        rest.push(deck[m]);
        proof {
            assert(rest@ =~= deck@.subrange(28, m + 1));
        }
        m = m + 1;
    }
    let stock = Stock::new(rest);
    let waste = Waste::new(Vec::new());
    let mut foundations: HashMap<u8, Foundation> = HashMap::new();
    foundations.insert(0, Foundation::new(0, Suit::Heart, Vec::new()));
    foundations.insert(1, Foundation::new(1, Suit::Spade, Vec::new()));
    foundations.insert(2, Foundation::new(2, Suit::Club, Vec::new()));
    foundations.insert(3, Foundation::new(3, Suit::Diamond, Vec::new()));
    let state = GameState::new(columns, stock, waste, foundations);
    proof {
        assert(all_turned(Seq::<Card>::empty(), Face::Up) =~= Seq::<Card>::empty());
        assert(state@.columns =~= dealt(deck@).columns);
        assert(state@.foundations =~= dealt(deck@).foundations);
    }
    state
}

/// After the deal column `k` holds `k + 1` cards, the top one face up and
/// the others face down, and the stock holds what the columns left.
pub proof fn lemma_dealt_sizes(deck: Seq<Card>)
    requires
        deck.len() >= 28,
    ensures
        forall|k: u8|
            k < 7 ==> {
                let cards = (#[trigger] dealt(deck).columns[k]).cards;
                &&& cards.len() == k + 1
                &&& cards.last().face == Face::Up
                &&& forall|i: int| 0 <= i < k ==> (#[trigger] cards[i]).face == Face::Down
            },
        dealt(deck).stock.cards.len() == deck.len() - 28,
{
}

/// A freshly dealt table is well formed.
pub proof fn lemma_dealt_is_well_formed(deck: Seq<Card>)
    requires
        deck.len() >= 28,
    ensures
        well_formed(dealt(deck)),
{
    let state = dealt(deck);
    assert forall|k: u8| #[trigger] state.columns.contains_key(k) implies in_order(
        state.columns[k],
    ) by {
        let cards = state.columns[k].cards;
        assert forall|i: int| 0 <= i < cards.len() - 1 implies (#[trigger] cards[i]).face
            == Face::Down by {}
    }
}

/// The columns before column `k` hold what the deck holds before the first
/// card of column `k`.
proof fn lemma_columns_hold_the_front(deck: Seq<Card>, k: nat, rank: Rank, suit: Suit)
    requires
        deck.len() >= 28,
        k <= 7,
    ensures
        occurrences_in(dealt(deck).columns, k, rank, suit) == occurrences(
            deck.subrange(0, column_start(k as int)),
            rank,
            suit,
        ),
    decreases k,
{
    if k == 0 {
        assert(deck.subrange(0, 0) =~= Seq::<Card>::empty());
    } else {
        let j = (k - 1) as u8;
        lemma_columns_hold_the_front(deck, (k - 1) as nat, rank, suit);
        let front = deck.subrange(0, column_start(j as int));
        let segment = deck.subrange(column_start(j as int), column_start(j as int) + j + 1);
        assert(column_start(k as int) == column_start(j as int) + j + 1);
        assert(deck.subrange(0, column_start(k as int)) =~= front + segment);
        lemma_occurrences_add(front, segment, rank, suit);
        lemma_occurrences_reverse(segment, rank, suit);
        lemma_occurrences_ignore_faces(
            top_revealed(segment.reverse()),
            segment.reverse(),
            rank,
            suit,
        );
        assert(dealt(deck).columns.contains_key(j));
        assert(dealt(deck).columns[j].cards == top_revealed(segment.reverse()));
    }
}

/// A freshly dealt table holds each card as often as the deck held it.
pub proof fn lemma_dealt_holds_the_deck(deck: Seq<Card>, rank: Rank, suit: Suit)
    requires
        deck.len() >= 28,
    ensures
        occurrences_on(dealt(deck), rank, suit) == occurrences(deck, rank, suit),
{
    let state = dealt(deck);
    let front = deck.subrange(0, 28);
    let rest = deck.subrange(28, deck.len() as int);
    lemma_occurrences_in_empty(state.foundations, 256, rank, suit);
    lemma_occurrences_in_beyond(state.columns, 7, 256, rank, suit);
    lemma_columns_hold_the_front(deck, 7, rank, suit);
    lemma_occurrences_ignore_faces(all_turned(rest, Face::Down), rest, rank, suit);
    assert(deck =~= front + rest);
    lemma_occurrences_add(front, rest, rank, suit);
    assert(occurrences(Seq::<Card>::empty(), rank, suit) == 0);
}

/// A full deck, in whatever order, deals into a table that holds a full deck.
pub proof fn lemma_dealt_holds_full_deck(deck: Seq<Card>)
    requires
        deck.to_multiset() == deck_order().to_multiset(),
    ensures
        deck.len() == 52,
        holds_full_deck(dealt(deck)),
{
    deck.to_multiset_ensures();
    deck_order().to_multiset_ensures();
    assert forall|rank: Rank, suit: Suit| #[trigger]
        occurrences_on(dealt(deck), rank, suit) == 1 by {
        lemma_dealt_holds_the_deck(deck, rank, suit);
        lemma_occurrences_of_permutation(deck, deck_order(), rank, suit);
        lemma_new_deck_is_full(rank, suit);
    }
}

} // verus!
