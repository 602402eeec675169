//! What holds of every table that play can reach: how the cards lie in each
//! kind of pile, and that no card is ever lost or doubled.

use crate::card::{deck_order, Card, Face, Rank, Suit};
use crate::game_state::{revealed, top_cards, GameStateView};
use crate::pile::{all_turned, lemma_place_appends, PileId, PileKind, PileView, Side};
use vstd::prelude::*;

verus! {

/// Whether every one of the cards shows `face`.
pub open spec fn all_show(cards: Seq<Card>, face: Face) -> bool {
    forall|i: int| 0 <= i < cards.len() ==> (#[trigger] cards[i]).face == face
}

/// Whether `upper` may lie directly on `lower` in a column: one rank lower
/// and of the other colour.
pub open spec fn follows_in_column(lower: Card, upper: Card) -> bool {
    upper.rank.value() == lower.rank.value() - 1 && upper.spec_color() != lower.spec_color()
}

/// The cards of a column as moves leave them: above a face-up card every
/// card is face up, so the face-up cards form one run at the top and
/// everything below it is face down; and within that run each card follows
/// the one beneath it.
pub open spec fn column_laid_out(cards: Seq<Card>) -> bool {
    &&& forall|i: int, j: int|
        0 <= i <= j < cards.len() && (#[trigger] cards[i]).face == Face::Up ==> (
        #[trigger] cards[j]).face == Face::Up
    &&& forall|i: int|
        0 <= i < cards.len() - 1 && (#[trigger] cards[i]).face == Face::Up ==> follows_in_column(
            cards[i],
            cards[i + 1],
        )
}

/// The cards of a column in order: laid out as above, and the top card, if
/// there is one, face up.
pub open spec fn column_in_order(cards: Seq<Card>) -> bool {
    &&& column_laid_out(cards)
    &&& cards.len() > 0 ==> cards.last().face == Face::Up
}

/// The cards of a foundation in order: ace, two, three and so on of the
/// foundation's suit, all face up.
pub open spec fn foundation_in_order(cards: Seq<Card>, suit: Suit) -> bool {
    forall|i: int|
        0 <= i < cards.len() ==> {
            &&& (#[trigger] cards[i]).suit == suit
            &&& cards[i].rank.value() == i + 1
            &&& cards[i].face == Face::Up
        }
}

/// Whether the cards of a pile lie as its kind demands.
pub open spec fn in_order(pile: PileView) -> bool {
    match pile.kind {
        PileKind::Stock => all_show(pile.cards, Face::Down),
        PileKind::Waste => all_show(pile.cards, Face::Up),
        PileKind::Column => column_in_order(pile.cards),
        PileKind::Foundation(suit) => foundation_in_order(pile.cards, suit),
    }
}

/// Whether the table is one that play can reach as far as each pile on its
/// own is concerned: every pile is of the kind of its place, carries the name
/// of its place, and holds its cards in order.
pub open spec fn well_formed(state: GameStateView) -> bool {
    &&& state.stock.kind == PileKind::Stock
    &&& state.stock.id == PileId::Stock
    &&& in_order(state.stock)
    &&& state.waste.kind == PileKind::Waste
    &&& state.waste.id == PileId::Waste
    &&& in_order(state.waste)
    &&& forall|k: u8| #[trigger]
        state.columns.contains_key(k) ==> {
            &&& state.columns[k].kind == PileKind::Column
            &&& state.columns[k].id == PileId::Column(k)
            &&& in_order(state.columns[k])
        }
    &&& forall|k: u8| #[trigger]
        state.foundations.contains_key(k) ==> {
            &&& state.foundations[k].kind is Foundation
            &&& state.foundations[k].id == PileId::Foundation(k)
            &&& in_order(state.foundations[k])
        }
}

/// A foundation in order holds at most the thirteen cards of its suit.
pub proof fn lemma_foundation_holds_a_suit(cards: Seq<Card>, suit: Suit)
    requires
        foundation_in_order(cards, suit),
    ensures
        cards.len() <= 13,
{
    if cards.len() > 13 {
        cards[13].rank.lemma_value_round_trip();
    }
}

/// Turning the top card up puts a laid-out column in order.
pub proof fn lemma_reveal_keeps_order(pile: PileView)
    requires
        pile.kind == PileKind::Column,
        column_laid_out(pile.cards),
    ensures
        in_order(revealed(pile)),
{
    let after = revealed(pile);
    if pile.cards.len() > 0 && pile.cards.last().face == Face::Down {
        let last = pile.cards.len() - 1;
        assert forall|i: int| 0 <= i < last implies (#[trigger] after.cards[i]).face
            == Face::Down by {
            assert(after.cards[i] == pile.cards[i]);
            if pile.cards[i].face == Face::Up {
                assert(pile.cards[last].face == Face::Up);
            }
        }
    }
}

/// A pile in order is still in order without its top `n` cards; a column
/// once the card that then lies on top is turned face up.
pub proof fn lemma_take_keeps_order(pile: PileView, n: nat)
    requires
        in_order(pile),
        n <= pile.cards.len(),
    ensures
        pile.kind != PileKind::Column ==> in_order(pile.without(n, Side::Top)),
        pile.kind == PileKind::Column ==> in_order(revealed(pile.without(n, Side::Top))),
{
    let rest = pile.without(n, Side::Top);
    assert forall|i: int| 0 <= i < rest.cards.len() implies rest.cards[i] == pile.cards[i] by {}
    if pile.kind == PileKind::Column {
        lemma_reveal_keeps_order(rest);
    }
}

/// One accepted card keeps a pile in order, provided that a column is given
/// it face up.
pub proof fn lemma_place_one_keeps_order(pile: PileView, card: Card, face: Face)
    requires
        in_order(pile),
        pile.kind == PileKind::Column ==> face == Face::Up,
        pile.rejection(card) is None,
    ensures
        in_order(pile.with_placed(card, face)),
{
    let after = pile.with_placed(card, face);
    let n = pile.cards.len() as int;
    assert forall|i: int| 0 <= i < n implies after.cards[i] == pile.cards[i] by {}
    assert(after.cards[n] == card.with_face(pile.placed_face(face)));
    match pile.kind {
        PileKind::Column => {
            if n > 0 {
                let top = pile.cards[n - 1];
                top.rank.lemma_value_round_trip();
                card.rank.lemma_value_round_trip();
                assert(follows_in_column(top, after.cards[n]));
            }
        },
        PileKind::Foundation(suit) => {
            if n > 0 {
                let top = pile.cards[n - 1];
                top.rank.lemma_value_round_trip();
                card.rank.lemma_value_round_trip();
            }
        },
        _ => {},
    }
}

/// Accepted cards keep a pile in order, provided that a column is given them
/// face up.
pub proof fn lemma_place_keeps_order(pile: PileView, cards: Seq<Card>, face: Face)
    requires
        in_order(pile),
        pile.kind == PileKind::Column ==> face == Face::Up,
    ensures
        pile.place(cards, face) matches Ok(after) ==> in_order(after),
    decreases cards.len(),
{
    if cards.len() > 0 && pile.place_one(cards[0], face) is Ok {
        lemma_place_one_keeps_order(pile, cards[0], face);
        lemma_place_keeps_order(
            pile.with_placed(cards[0], face),
            cards.subrange(1, cards.len() as int),
            face,
        );
    }
}

/// Accepted cards leave name and kind of the pile as they were.
pub proof fn lemma_place_keeps_identity(pile: PileView, cards: Seq<Card>, face: Face)
    ensures
        pile.place(cards, face) matches Ok(after) ==> after.id == pile.id && after.kind
            == pile.kind,
{
    lemma_place_appends(pile, cards, face);
}

/// A draw leaves a well-formed table well formed.
pub proof fn lemma_draw_keeps_well_formed(state: GameStateView)
    requires
        well_formed(state),
    ensures
        state.draw() matches Ok(after) ==> well_formed(after),
{
    if state.draw() is Ok {
        let after = state.draw()->Ok_0;
        lemma_take_keeps_order(state.stock, 1);
        assert(after.stock.cards =~= state.stock.without(1, Side::Top).cards);
        lemma_place_one_keeps_order(state.waste, state.stock.cards.last(), Face::Up);
    }
}

/// A recycle leaves a well-formed table well formed.
pub proof fn lemma_recycle_keeps_well_formed(state: GameStateView)
    requires
        well_formed(state),
    ensures
        state.recycle() matches Ok(after) ==> well_formed(after),
{
}

/// A move leaves a well-formed table well formed.
pub proof fn lemma_move_keeps_well_formed(state: GameStateView, n: nat, from: PileId, to: PileId)
    requires
        well_formed(state),
    ensures
        state.move_cards(n, from, to) matches Ok(after) ==> well_formed(after),
{
    if state.move_cards(n, from, to) is Ok {
        let source = state.pile(from)->Ok_0;
        let target = state.pile(to)->Ok_0;
        let moved = top_cards(source, n);
        lemma_take_keeps_order(source, n);
        lemma_place_keeps_order(target, moved, Face::Up);
        lemma_place_keeps_identity(target, moved, Face::Up);
    }
}

/// How often the card of this rank and suit occurs among the cards, whatever
/// face it shows.
pub open spec fn occurrences(cards: Seq<Card>, rank: Rank, suit: Suit) -> nat
    decreases cards.len(),
{
    if cards.len() == 0 {
        0
    } else {
        occurrences(cards.drop_last(), rank, suit) + if cards.last().rank == rank
            && cards.last().suit == suit {
            1nat
        } else {
            0nat
        }
    }
}

/// How often the card occurs in those of the piles whose index is below
/// `bound`.
pub open spec fn occurrences_in(piles: Map<u8, PileView>, bound: nat, rank: Rank, suit: Suit) -> nat
    decreases bound,
{
    if bound == 0 {
        0
    } else {
        occurrences_in(piles, (bound - 1) as nat, rank, suit) + if bound <= 256
            && piles.contains_key((bound - 1) as u8) {
            occurrences(piles[(bound - 1) as u8].cards, rank, suit)
        } else {
            0nat
        }
    }
}

/// How often the card occurs on the whole table.
pub open spec fn occurrences_on(state: GameStateView, rank: Rank, suit: Suit) -> nat {
    occurrences(state.stock.cards, rank, suit) + occurrences(state.waste.cards, rank, suit)
        + occurrences_in(state.columns, 256, rank, suit) + occurrences_in(
        state.foundations,
        256,
        rank,
        suit,
    )
}

/// Whether the table holds one full deck: each of the fifty-two cards
/// exactly once.
pub open spec fn holds_full_deck(state: GameStateView) -> bool {
    forall|rank: Rank, suit: Suit| #[trigger] occurrences_on(state, rank, suit) == 1
}

/// Occurrences add up over cards laid end to end.
pub proof fn lemma_occurrences_add(a: Seq<Card>, b: Seq<Card>, rank: Rank, suit: Suit)
    ensures
        occurrences(a + b, rank, suit) == occurrences(a, rank, suit) + occurrences(b, rank, suit),
    decreases b.len(),
{
    if b.len() == 0 {
        assert(a + b =~= a);
    } else {
        assert((a + b).drop_last() =~= a + b.drop_last());
        lemma_occurrences_add(a, b.drop_last(), rank, suit);
    }
}

/// Occurrences do not depend on how the cards are turned: two rows of the
/// same cards in the same places count alike.
pub proof fn lemma_occurrences_ignore_faces(a: Seq<Card>, b: Seq<Card>, rank: Rank, suit: Suit)
    requires
        a.len() == b.len(),
        forall|i: int| 0 <= i < a.len() ==> (#[trigger] a[i]).same_card(b[i]),
    ensures
        occurrences(a, rank, suit) == occurrences(b, rank, suit),
    decreases a.len(),
{
    if a.len() > 0 {
        assert(a.last().same_card(b.last()));
        assert forall|i: int| 0 <= i < a.drop_last().len() implies (#[trigger] a.drop_last()[i]).same_card(
            b.drop_last()[i],
        ) by {
            assert(a[i].same_card(b[i]));
        }
        lemma_occurrences_ignore_faces(a.drop_last(), b.drop_last(), rank, suit);
    }
}

/// Occurrences do not depend on the order of the cards.
pub proof fn lemma_occurrences_reverse(a: Seq<Card>, rank: Rank, suit: Suit)
    ensures
        occurrences(a.reverse(), rank, suit) == occurrences(a, rank, suit),
    decreases a.len(),
{
    if a.len() > 0 {
        let rest = a.drop_last();
        lemma_occurrences_reverse(rest, rank, suit);
        assert(a.reverse() =~= seq![a.last()] + rest.reverse());
        lemma_occurrences_add(seq![a.last()], rest.reverse(), rank, suit);
        let one = seq![a.last()];
        assert(one.drop_last() =~= Seq::<Card>::empty());
        assert(occurrences(one.drop_last(), rank, suit) == 0);
        assert(one.last() == a.last());
    }
}

/// Replacing one pile changes the count by what that pile lost and gained.
pub proof fn lemma_occurrences_in_insert(
    piles: Map<u8, PileView>,
    bound: nat,
    k: u8,
    pile: PileView,
    rank: Rank,
    suit: Suit,
)
    requires
        bound <= 256,
    ensures
        occurrences_in(piles.insert(k, pile), bound, rank, suit) + (if k < bound
            && piles.contains_key(k) {
            occurrences(piles[k].cards, rank, suit)
        } else {
            0nat
        }) == occurrences_in(piles, bound, rank, suit) + (if k < bound {
            occurrences(pile.cards, rank, suit)
        } else {
            0nat
        }),
    decreases bound,
{
    if bound > 0 {
        lemma_occurrences_in_insert(piles, (bound - 1) as nat, k, pile, rank, suit);
    }
}

/// Replacing the pile in the place named `id` changes the count on the table
/// by what that pile lost and gained.
pub proof fn lemma_occurrences_with_pile(
    state: GameStateView,
    id: PileId,
    pile: PileView,
    rank: Rank,
    suit: Suit,
)
    requires
        state.pile(id) is Ok,
    ensures
        occurrences_on(state.with_pile(id, pile), rank, suit) + occurrences(
            state.pile(id)->Ok_0.cards,
            rank,
            suit,
        ) == occurrences_on(state, rank, suit) + occurrences(pile.cards, rank, suit),
{
    match id {
        PileId::Column(k) => {
            lemma_occurrences_in_insert(state.columns, 256, k, pile, rank, suit);
        },
        PileId::Foundation(k) => {
            lemma_occurrences_in_insert(state.foundations, 256, k, pile, rank, suit);
        },
        _ => {},
    }
}

/// A draw neither loses nor doubles a card.
pub proof fn lemma_draw_keeps_cards(state: GameStateView, rank: Rank, suit: Suit)
    ensures
        state.draw() matches Ok(after) ==> occurrences_on(after, rank, suit) == occurrences_on(
            state,
            rank,
            suit,
        ),
{
    if state.draw() is Ok {
        let after = state.draw()->Ok_0;
        assert(after.waste.cards.drop_last() =~= state.waste.cards);
    }
}

/// A recycle neither loses nor doubles a card.
pub proof fn lemma_recycle_keeps_cards(state: GameStateView, rank: Rank, suit: Suit)
    ensures
        state.recycle() matches Ok(after) ==> occurrences_on(after, rank, suit) == occurrences_on(
            state,
            rank,
            suit,
        ),
{
    if state.recycle() is Ok {
        let turned = state.waste.cards.reverse();
        lemma_occurrences_reverse(state.waste.cards, rank, suit);
        lemma_occurrences_ignore_faces(all_turned(turned, Face::Down), turned, rank, suit);
    }
}

/// A move neither loses nor doubles a card.
pub proof fn lemma_move_keeps_cards(
    state: GameStateView,
    n: nat,
    from: PileId,
    to: PileId,
    rank: Rank,
    suit: Suit,
)
    ensures
        state.move_cards(n, from, to) matches Ok(after) ==> occurrences_on(after, rank, suit)
            == occurrences_on(state, rank, suit),
{
    if state.move_cards(n, from, to) is Ok {
        let source = state.pile(from)->Ok_0;
        let target = state.pile(to)->Ok_0;
        let moved = top_cards(source, n);
        let filled = target.place(moved, Face::Up)->Ok_0;
        let rest = source.without(n, Side::Top);
        let left = if from is Column {
            revealed(rest)
        } else {
            rest
        };
        let between = state.with_pile(from, left);
        lemma_occurrences_with_pile(state, from, left, rank, suit);
        assert(between.pile(to) == state.pile(to));
        lemma_occurrences_with_pile(between, to, filled, rank, suit);
        // what the source lost
        assert(source.cards =~= rest.cards + moved);
        lemma_occurrences_add(rest.cards, moved, rank, suit);
        lemma_occurrences_ignore_faces(left.cards, rest.cards, rank, suit);
        // what the target gained
        lemma_place_appends(target, moved, Face::Up);
        let turned = all_turned(moved, target.placed_face(Face::Up));
        lemma_occurrences_add(target.cards, turned, rank, suit);
        lemma_occurrences_ignore_faces(turned, moved, rank, suit);
    }
}

/// A draw keeps the deck full.
pub proof fn lemma_draw_keeps_full_deck(state: GameStateView)
    requires
        holds_full_deck(state),
    ensures
        state.draw() matches Ok(after) ==> holds_full_deck(after),
{
    if state.draw() is Ok {
        let after = state.draw()->Ok_0;
        assert forall|rank: Rank, suit: Suit| #[trigger]
            occurrences_on(after, rank, suit) == 1 by {
            lemma_draw_keeps_cards(state, rank, suit);
            assert(occurrences_on(state, rank, suit) == 1);
        }
    }
}

/// A recycle keeps the deck full.
pub proof fn lemma_recycle_keeps_full_deck(state: GameStateView)
    requires
        holds_full_deck(state),
    ensures
        state.recycle() matches Ok(after) ==> holds_full_deck(after),
{
    if state.recycle() is Ok {
        let after = state.recycle()->Ok_0;
        assert forall|rank: Rank, suit: Suit| #[trigger]
            occurrences_on(after, rank, suit) == 1 by {
            lemma_recycle_keeps_cards(state, rank, suit);
            assert(occurrences_on(state, rank, suit) == 1);
        }
    }
}

/// A move keeps the deck full.
pub proof fn lemma_move_keeps_full_deck(state: GameStateView, n: nat, from: PileId, to: PileId)
    requires
        holds_full_deck(state),
    ensures
        state.move_cards(n, from, to) matches Ok(after) ==> holds_full_deck(after),
{
    if state.move_cards(n, from, to) is Ok {
        let after = state.move_cards(n, from, to)->Ok_0;
        assert forall|rank: Rank, suit: Suit| #[trigger]
            occurrences_on(after, rank, suit) == 1 by {
            lemma_move_keeps_cards(state, n, from, to, rank, suit);
            assert(occurrences_on(state, rank, suit) == 1);
        }
    }
}

/// A card that is nowhere among the cards occurs zero times.
pub proof fn lemma_occurrences_absent(cards: Seq<Card>, rank: Rank, suit: Suit)
    requires
        forall|i: int|
            0 <= i < cards.len() ==> !((#[trigger] cards[i]).rank == rank && cards[i].suit == suit),
    ensures
        occurrences(cards, rank, suit) == 0,
    decreases cards.len(),
{
    if cards.len() > 0 {
        assert(!(cards[cards.len() - 1].rank == rank && cards[cards.len() - 1].suit == suit));
        assert forall|i: int| 0 <= i < cards.drop_last().len() implies !((
        #[trigger] cards.drop_last()[i]).rank == rank && cards.drop_last()[i].suit == suit) by {
            assert(cards.drop_last()[i] == cards[i]);
        }
        lemma_occurrences_absent(cards.drop_last(), rank, suit);
    }
}

/// A card that lies at place `at` and nowhere else occurs once.
pub proof fn lemma_occurrences_once(cards: Seq<Card>, at: int, rank: Rank, suit: Suit)
    requires
        0 <= at < cards.len(),
        cards[at].rank == rank && cards[at].suit == suit,
        forall|i: int|
            0 <= i < cards.len() && i != at ==> !((#[trigger] cards[i]).rank == rank
                && cards[i].suit == suit),
    ensures
        occurrences(cards, rank, suit) == 1,
{
    let below = cards.subrange(0, at);
    let one = seq![cards[at]];
    let above = cards.subrange(at + 1, cards.len() as int);
    assert(cards =~= below + one + above);
    lemma_occurrences_add(below + one, above, rank, suit);
    lemma_occurrences_add(below, one, rank, suit);
    assert forall|i: int| 0 <= i < below.len() implies !((#[trigger] below[i]).rank == rank
        && below[i].suit == suit) by {
        assert(below[i] == cards[i]);
    }
    assert forall|i: int| 0 <= i < above.len() implies !((#[trigger] above[i]).rank == rank
        && above[i].suit == suit) by {
        assert(above[i] == cards[at + 1 + i]);
    }
    lemma_occurrences_absent(below, rank, suit);
    lemma_occurrences_absent(above, rank, suit);
    assert(one.drop_last() =~= Seq::<Card>::empty());
    assert(occurrences(one.drop_last(), rank, suit) == 0);
    assert(one.last() == cards[at]);
}

/// Occurrences are a matter of which cards there are, not of where they lie:
/// the card occurs as often as it is there face up and face down together.
pub proof fn lemma_occurrences_by_content(cards: Seq<Card>, rank: Rank, suit: Suit)
    ensures
        occurrences(cards, rank, suit) == cards.to_multiset().count(
            Card { rank, suit, face: Face::Up },
        ) + cards.to_multiset().count(Card { rank, suit, face: Face::Down }),
    decreases cards.len(),
{
    broadcast use vstd::multiset::group_multiset_axioms;

    if cards.len() == 0 {
        cards.to_multiset_ensures();
        assert(cards.to_multiset().len() == 0);
    } else {
        let rest = cards.drop_last();
        lemma_occurrences_by_content(rest, rank, suit);
        vstd::seq_lib::to_multiset_build(rest, cards.last());
        assert(rest.push(cards.last()) =~= cards);
    }
}

/// Cards brought into another order occur as often as before.
pub proof fn lemma_occurrences_of_permutation(a: Seq<Card>, b: Seq<Card>, rank: Rank, suit: Suit)
    requires
        a.to_multiset() == b.to_multiset(),
    ensures
        occurrences(a, rank, suit) == occurrences(b, rank, suit),
{
    lemma_occurrences_by_content(a, rank, suit);
    lemma_occurrences_by_content(b, rank, suit);
}

/// A new deck holds each of the fifty-two cards exactly once.
pub proof fn lemma_new_deck_is_full(rank: Rank, suit: Suit)
    ensures
        occurrences(deck_order(), rank, suit) == 1,
{
    let deck = deck_order();
    let s: int = match suit {
        Suit::Heart => 0,
        Suit::Club => 1,
        Suit::Diamond => 2,
        Suit::Spade => 3,
    };
    let at = 13 * s + rank.value() - 1;
    rank.lemma_value_round_trip();
    assert(at / 13 == s && at % 13 == rank.value() - 1);
    assert(deck[at].rank == rank && deck[at].suit == suit);
    assert forall|i: int| 0 <= i < deck.len() && i != at implies !((#[trigger] deck[i]).rank == rank
        && deck[i].suit == suit) by {
        if deck[i].rank == rank && deck[i].suit == suit {
            deck[i].rank.lemma_value_round_trip();
            assert(Rank::from_value(i % 13 + 1).value() == i % 13 + 1);
            assert(i / 13 == s);
            assert(i % 13 == rank.value() - 1);
        }
    }
    lemma_occurrences_once(deck, at, rank, suit);
}

/// Where no pile holds a card, the card occurs in none.
pub proof fn lemma_occurrences_in_empty(
    piles: Map<u8, PileView>,
    bound: nat,
    rank: Rank,
    suit: Suit,
)
    requires
        forall|k: u8| #[trigger] piles.contains_key(k) ==> piles[k].cards.len() == 0,
    ensures
        occurrences_in(piles, bound, rank, suit) == 0,
    decreases bound,
{
    if bound > 0 {
        lemma_occurrences_in_empty(piles, (bound - 1) as nat, rank, suit);
    }
}

/// Indices at which there is no pile add nothing to the count.
pub proof fn lemma_occurrences_in_beyond(
    piles: Map<u8, PileView>,
    from: nat,
    bound: nat,
    rank: Rank,
    suit: Suit,
)
    requires
        from <= bound,
        forall|k: u8| from <= k < bound ==> !piles.contains_key(k),
    ensures
        occurrences_in(piles, bound, rank, suit) == occurrences_in(piles, from, rank, suit),
    decreases bound,
{
    if bound > from {
        lemma_occurrences_in_beyond(piles, from, (bound - 1) as nat, rank, suit);
    }
}

/// How many cards lie in those of the piles whose index is below `bound`.
pub open spec fn cards_in(piles: Map<u8, PileView>, bound: nat) -> nat
    decreases bound,
{
    if bound == 0 {
        0
    } else {
        cards_in(piles, (bound - 1) as nat) + if bound <= 256 && piles.contains_key(
            (bound - 1) as u8,
        ) {
            piles[(bound - 1) as u8].cards.len()
        } else {
            0nat
        }
    }
}

/// How many cards lie on the whole table.
pub open spec fn cards_on(state: GameStateView) -> nat {
    state.stock.cards.len() + state.waste.cards.len() + cards_in(state.columns, 256) + cards_in(
        state.foundations,
        256,
    )
}

/// The sum of `count` over the first `upto` cards of a new deck.
pub open spec fn over_deck(count: spec_fn(Rank, Suit) -> nat, upto: nat) -> nat
    decreases upto,
{
    if upto == 0 {
        0
    } else {
        over_deck(count, (upto - 1) as nat) + count(
            deck_order()[upto - 1].rank,
            deck_order()[upto - 1].suit,
        )
    }
}

/// A sum over the deck of sums is the sum of the sums over the deck.
proof fn lemma_over_deck_adds(
    a: spec_fn(Rank, Suit) -> nat,
    b: spec_fn(Rank, Suit) -> nat,
    both: spec_fn(Rank, Suit) -> nat,
    upto: nat,
)
    requires
        forall|rank: Rank, suit: Suit| #[trigger] both(rank, suit) == a(rank, suit) + b(rank, suit),
    ensures
        over_deck(both, upto) == over_deck(a, upto) + over_deck(b, upto),
    decreases upto,
{
    if upto > 0 {
        lemma_over_deck_adds(a, b, both, (upto - 1) as nat);
    }
}

/// Where a new deck holds a card.
pub open spec fn place_in_deck(rank: Rank, suit: Suit) -> int {
    13 * (match suit {
        Suit::Heart => 0int,
        Suit::Club => 1int,
        Suit::Diamond => 2int,
        Suit::Spade => 3int,
    }) + rank.value() - 1
}

/// Over the deck, one card is counted once: at its place.
proof fn lemma_over_deck_one_card(card: Card, upto: nat)
    requires
        upto <= 52,
    ensures
        over_deck(
            |rank: Rank, suit: Suit|
                if card.rank == rank && card.suit == suit {
                    1nat
                } else {
                    0nat
                },
            upto,
        ) == (if place_in_deck(card.rank, card.suit) < upto {
            1nat
        } else {
            0nat
        }),
    decreases upto,
{
    card.rank.lemma_value_round_trip();
    if upto > 0 {
        lemma_over_deck_one_card(card, (upto - 1) as nat);
        let i = upto - 1;
        let at = deck_order()[i];
        at.rank.lemma_value_round_trip();
        assert(Rank::from_value(i % 13 + 1).value() == i % 13 + 1);
        assert(place_in_deck(at.rank, at.suit) == i);
    }
}

/// Over the deck, the occurrences among some cards add up to the number of
/// the cards.
pub proof fn lemma_over_deck_counts_cards(cards: Seq<Card>)
    ensures
        over_deck(|rank: Rank, suit: Suit| occurrences(cards, rank, suit), 52) == cards.len(),
    decreases cards.len(),
{
    let all = |rank: Rank, suit: Suit| occurrences(cards, rank, suit);
    if cards.len() == 0 {
        let none = |rank: Rank, suit: Suit| 0nat;
        lemma_over_deck_adds(none, none, all, 52);
        lemma_over_deck_adds(none, none, none, 52);
    } else {
        let card = cards.last();
        let rest = |rank: Rank, suit: Suit| occurrences(cards.drop_last(), rank, suit);
        let one = |rank: Rank, suit: Suit|
            if card.rank == rank && card.suit == suit {
                1nat
            } else {
                0nat
            };
        lemma_over_deck_counts_cards(cards.drop_last());
        lemma_over_deck_one_card(card, 52);
        card.rank.lemma_value_round_trip();
        lemma_over_deck_adds(rest, one, all, 52);
    }
}

/// Over the deck, the occurrences in some piles add up to the number of
/// their cards.
proof fn lemma_over_deck_counts_piles(piles: Map<u8, PileView>, bound: nat)
    requires
        bound <= 256,
    ensures
        over_deck(|rank: Rank, suit: Suit| occurrences_in(piles, bound, rank, suit), 52)
            == cards_in(piles, bound),
    decreases bound,
{
    let all = |rank: Rank, suit: Suit| occurrences_in(piles, bound, rank, suit);
    let none = |rank: Rank, suit: Suit| 0nat;
    if bound == 0 {
        lemma_over_deck_adds(none, none, all, 52);
        lemma_over_deck_adds(none, none, none, 52);
    } else {
        let before = |rank: Rank, suit: Suit| occurrences_in(piles, (bound - 1) as nat, rank, suit);
        lemma_over_deck_counts_piles(piles, (bound - 1) as nat);
        let k = (bound - 1) as u8;
        if piles.contains_key(k) {
            let here = |rank: Rank, suit: Suit| occurrences(piles[k].cards, rank, suit);
            lemma_over_deck_counts_cards(piles[k].cards);
            lemma_over_deck_adds(before, here, all, 52);
        } else {
            lemma_over_deck_adds(before, none, all, 52);
            lemma_over_deck_adds(none, none, none, 52);
        }
    }
}

/// A sum over the deck of ones is the number of cards summed over.
proof fn lemma_over_deck_of_ones(count: spec_fn(Rank, Suit) -> nat, upto: nat)
    requires
        forall|rank: Rank, suit: Suit| #[trigger] count(rank, suit) == 1,
    ensures
        over_deck(count, upto) == upto,
    decreases upto,
{
    if upto > 0 {
        lemma_over_deck_of_ones(count, (upto - 1) as nat);
    }
}

/// A table that holds a full deck holds fifty-two cards.
pub proof fn lemma_full_deck_has_52_cards(state: GameStateView)
    requires
        holds_full_deck(state),
    ensures
        cards_on(state) == 52,
{
    let stock = |rank: Rank, suit: Suit| occurrences(state.stock.cards, rank, suit);
    let waste = |rank: Rank, suit: Suit| occurrences(state.waste.cards, rank, suit);
    let columns = |rank: Rank, suit: Suit| occurrences_in(state.columns, 256, rank, suit);
    let foundations = |rank: Rank, suit: Suit| occurrences_in(state.foundations, 256, rank, suit);
    let hand = |rank: Rank, suit: Suit| stock(rank, suit) + waste(rank, suit);
    let piles = |rank: Rank, suit: Suit| columns(rank, suit) + foundations(rank, suit);
    let all = |rank: Rank, suit: Suit| occurrences_on(state, rank, suit);
    lemma_over_deck_counts_cards(state.stock.cards);
    lemma_over_deck_counts_cards(state.waste.cards);
    lemma_over_deck_counts_piles(state.columns, 256);
    lemma_over_deck_counts_piles(state.foundations, 256);
    lemma_over_deck_adds(stock, waste, hand, 52);
    lemma_over_deck_adds(columns, foundations, piles, 52);
    lemma_over_deck_adds(hand, piles, all, 52);
    lemma_over_deck_of_ones(all, 52);
}

} // verus!
