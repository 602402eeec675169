//! The table: one stock, one waste, the columns and the foundations, and the
//! transitions between states of it.

use crate::card::{Card, Face};
use crate::column::{lemma_column_kind, Column};
use crate::error::{copy_cards, PileError};
use crate::foundation::{lemma_foundation_kind, Foundation};
use crate::game_error::{GameError, GameErrorView};
use crate::invariants::{
    holds_full_deck, lemma_draw_keeps_full_deck, lemma_draw_keeps_well_formed,
    lemma_move_keeps_full_deck, lemma_move_keeps_well_formed, lemma_recycle_keeps_full_deck,
    lemma_recycle_keeps_well_formed, well_formed,
};
use crate::pile::{all_turned, lemma_place_unconditional, PileBehavior, PileId, PileView, Side};
use crate::stock::{lemma_stock_kind, Stock};
use crate::waste::{lemma_waste_kind, Waste};
use std::collections::hash_map::Entry;
use std::collections::HashMap;
use vstd::prelude::*;

verus! {

broadcast use {
    vstd::std_specs::hash::group_hash_axioms,
    lemma_column_kind,
    lemma_foundation_kind,
    lemma_stock_kind,
    lemma_waste_kind,
};

/// The table as the rules see it.
pub struct GameStateView {
    pub stock: PileView,
    pub waste: PileView,
    pub columns: Map<u8, PileView>,
    pub foundations: Map<u8, PileView>,
}

/// The pile with its top card turned face up, if that card lay face down.
pub open spec fn revealed(pile: PileView) -> PileView {
    if pile.cards.len() > 0 && pile.cards.last().face == Face::Down {
        pile.with_cards(
            pile.cards.update(pile.cards.len() - 1, pile.cards.last().with_face(Face::Up)),
        )
    } else {
        pile
    }
}

/// The top `n` cards of the pile, the lowest of them first.
pub open spec fn top_cards(pile: PileView, n: nat) -> Seq<Card>
    recommends
        n <= pile.cards.len(),
{
    pile.cards.subrange(pile.cards.len() - n, pile.cards.len() as int)
}

impl GameStateView {
    /// The pile named `id`, or the error for a column or foundation that the
    /// table does not have.
    pub open spec fn pile(self, id: PileId) -> Result<PileView, GameErrorView> {
        match id {
            PileId::Stock => Ok(self.stock),
            PileId::Waste => Ok(self.waste),
            PileId::Column(n) => if self.columns.contains_key(n) {
                Ok(self.columns[n])
            } else {
                Err(GameErrorView::ColumnNotExist(n))
            },
            PileId::Foundation(n) => if self.foundations.contains_key(n) {
                Ok(self.foundations[n])
            } else {
                Err(GameErrorView::FoundationNotExist(n))
            },
        }
    }

    /// The table with `pile` in the place named `id`.
    pub open spec fn with_pile(self, id: PileId, pile: PileView) -> GameStateView {
        match id {
            PileId::Stock => GameStateView { stock: pile, ..self },
            PileId::Waste => GameStateView { waste: pile, ..self },
            PileId::Column(n) => GameStateView { columns: self.columns.insert(n, pile), ..self },
            PileId::Foundation(n) => GameStateView {
                foundations: self.foundations.insert(n, pile),
                ..self
            },
        }
    }

    /// Drawing: the top card of the stock goes onto the waste, face up.
    pub open spec fn draw(self) -> Result<GameStateView, GameErrorView> {
        if self.stock.cards.len() == 0 {
            Err(GameErrorView::NoCardToDraw)
        } else {
            Ok(
                GameStateView {
                    stock: self.stock.with_cards(self.stock.cards.drop_last()),
                    waste: self.waste.with_cards(
                        self.waste.cards.push(self.stock.cards.last().with_face(Face::Up)),
                    ),
                    ..self
                },
            )
        }
    }

    /// Recycling: the waste is turned over as a whole and becomes the stock,
    /// so that the cards will be drawn again in the order they were drawn.
    pub open spec fn recycle(self) -> Result<GameStateView, GameErrorView> {
        if self.waste.cards.len() == 0 {
            Err(GameErrorView::NothingToRecycle)
        } else if self.stock.cards.len() != 0 {
            Err(GameErrorView::StockNotEmpty)
        } else {
            Ok(
                GameStateView {
                    stock: self.stock.with_cards(
                        all_turned(self.waste.cards.reverse(), Face::Down),
                    ),
                    waste: self.waste.with_cards(Seq::empty()),
                    ..self
                },
            )
        }
    }

    /// Whether the rules rule out a move between these piles whatever the
    /// cards: onto the pile itself, out of the stock, or onto stock or waste.
    pub open spec fn never_allowed(from: PileId, to: PileId) -> bool {
        from == to || from == PileId::Stock || to == PileId::Stock || to == PileId::Waste
    }

    /// Moving the top `n` cards of `from` onto `to`: the table afterwards, or
    /// why the move is refused. After a move out of a column the column's new
    /// top card is turned face up.
    pub open spec fn move_cards(self, n: nat, from: PileId, to: PileId) -> Result<
        GameStateView,
        GameErrorView,
    > {
        if Self::never_allowed(from, to) {
            Err(GameErrorView::InvalidMove)
        } else {
            match self.pile(from) {
                Err(e) => Err(e),
                Ok(source) => match source.take_error(n) {
                    Some(e) => Err(GameErrorView::PileError(e)),
                    None => match self.pile(to) {
                        Err(e) => Err(e),
                        Ok(target) => match target.place(top_cards(source, n), Face::Up) {
                            Err(e) => Err(GameErrorView::PileError(e)),
                            Ok(filled) => {
                                let rest = source.without(n, Side::Top);
                                let left = if from is Column {
                                    revealed(rest)
                                } else {
                                    rest
                                };
                                Ok(self.with_pile(from, left).with_pile(to, filled))
                            },
                        },
                    },
                },
            }
        }
    }

    /// The names of the columns, in ascending order of their index.
    pub open spec fn column_ids(self) -> Seq<PileId> {
        keys_below(self.columns.dom(), 256).map_values(|k: u8| PileId::Column(k))
    }

    /// The names of the foundations, in ascending order of their index.
    pub open spec fn foundation_ids(self) -> Seq<PileId> {
        keys_below(self.foundations.dom(), 256).map_values(|k: u8| PileId::Foundation(k))
    }

    /// The game is won when stock, waste and every column are empty.
    pub open spec fn is_won(self) -> bool {
        &&& self.stock.cards.len() == 0
        &&& self.waste.cards.len() == 0
        &&& forall|k: u8| #[trigger] self.columns.contains_key(k) ==> self.columns[k].cards.len() == 0
    }
}

/// The members of `keys` that are smaller than `bound`, in ascending order.
pub open spec fn keys_below(keys: Set<u8>, bound: nat) -> Seq<u8>
    decreases bound,
{
    if bound == 0 {
        Seq::empty()
    } else {
        let before = keys_below(keys, (bound - 1) as nat);
        if bound <= 256 && keys.contains((bound - 1) as u8) {
            before.push((bound - 1) as u8)
        } else {
            before
        }
    }
}

/// `keys_below` lists exactly the members below the bound, each once, in
/// strictly ascending order.
pub proof fn lemma_keys_below(keys: Set<u8>, bound: nat)
    requires
        bound <= 256,
    ensures
        forall|i: int, j: int|
            0 <= i < j < keys_below(keys, bound).len() ==> keys_below(keys, bound)[i] < keys_below(
                keys,
                bound,
            )[j],
        forall|i: int|
            0 <= i < keys_below(keys, bound).len() ==> keys.contains(
                #[trigger] keys_below(keys, bound)[i],
            ) && keys_below(keys, bound)[i] < bound,
        forall|k: u8| keys.contains(k) && k < bound ==> keys_below(keys, bound).contains(k),
    decreases bound,
{
    if bound > 0 {
        let before = keys_below(keys, (bound - 1) as nat);
        lemma_keys_below(keys, (bound - 1) as nat);
        let all = keys_below(keys, bound);
        assert forall|k: u8| keys.contains(k) && k < bound implies all.contains(k) by {
            if k < bound - 1 {
                let i = choose|i: int| 0 <= i < before.len() && before[i] == k;
                assert(all[i] == k);
            } else {
                assert(all[all.len() - 1] == k);
            }
        }
    }
}

/// The table.
pub struct GameState {
    pub stock: Stock,
    pub waste: Waste,
    pub columns: HashMap<u8, Column>,
    pub foundations: HashMap<u8, Foundation>,
}

impl View for GameState {
    type V = GameStateView;

    open spec fn view(&self) -> GameStateView {
        GameStateView {
            stock: self.stock@,
            waste: self.waste@,
            columns: Map::new(
                |k: u8| self.columns@.contains_key(k),
                |k: u8| self.columns@[k]@,
            ),
            foundations: Map::new(
                |k: u8| self.foundations@.contains_key(k),
                |k: u8| self.foundations@[k]@,
            ),
        }
    }
}

/// One pile of the table, borrowed for change.
pub enum PileMut<'a> {
    Stock(&'a mut Stock),
    Waste(&'a mut Waste),
    Column(&'a mut Column),
    Foundation(&'a mut Foundation),
}

impl Clone for GameState {
    fn clone(&self) -> (r: Self)
        ensures
            r@ == self@,
    {
        let r = GameState {
            stock: self.stock.clone(),
            waste: self.waste.clone(),
            columns: self.columns.clone(),
            foundations: self.foundations.clone(),
        };
        proof {
            assert(r@.columns =~= self@.columns);
            assert(r@.foundations =~= self@.foundations);
        }
        r
    }
}

impl GameState {
    /// A table made of these piles, each column and foundation under its
    /// index.
    pub fn new(
        columns: HashMap<u8, Column>,
        stock: Stock,
        waste: Waste,
        foundations: HashMap<u8, Foundation>,
    ) -> (state: Self)
        ensures
            state.stock == stock,
            state.waste == waste,
            state.columns == columns,
            state.foundations == foundations,
    {
        Self { stock, waste, columns, foundations }
    }

    /// The pile named `id`, for reading.
    pub fn pile(&self, id: PileId) -> (r: Result<&dyn PileBehavior, GameError>)
        ensures
            match self@.pile(id) {
                Ok(pile) => r matches Ok(p) && p@ == pile,
                Err(e) => r matches Err(x) && x@ == e,
            },
    {
        match id {
            PileId::Stock => Ok(&self.stock),
            PileId::Waste => Ok(&self.waste),
            PileId::Column(n) => match self.columns.get(&n) {
                Some(c) => Ok(c),
                None => Err(GameError::ColumnNotExist(n)),
            },
            PileId::Foundation(n) => match self.foundations.get(&n) {
                Some(f) => Ok(f),
                None => Err(GameError::FoundationNotExist(n)),
            },
        }
    }

    /// The pile named `id`, for change. What is done to the pile through the
    /// reference is done to the table, and nothing else on the table changes.
    pub fn pile_mut(&mut self, id: PileId) -> (r: Result<PileMut<'_>, GameError>)
        ensures
            r is Ok <==> old(self)@.pile(id) is Ok,
            match r {
                Ok(PileMut::Stock(pile)) => {
                    &&& id == PileId::Stock
                    &&& *pile == old(self).stock
                    &&& final(self).stock == *final(pile)
                    &&& final(self).waste == old(self).waste
                    &&& final(self).columns@ == old(self).columns@
                    &&& final(self).foundations@ == old(self).foundations@
                },
                Ok(PileMut::Waste(pile)) => {
                    &&& id == PileId::Waste
                    &&& *pile == old(self).waste
                    &&& final(self).waste == *final(pile)
                    &&& final(self).stock == old(self).stock
                    &&& final(self).columns@ == old(self).columns@
                    &&& final(self).foundations@ == old(self).foundations@
                },
                Ok(PileMut::Column(pile)) => {
                    &&& id matches PileId::Column(k)
                    &&& old(self).columns@.contains_key(k)
                    &&& *pile == old(self).columns@[k]
                    &&& final(self).columns@ == old(self).columns@.insert(k, *final(pile))
                    &&& final(self).stock == old(self).stock
                    &&& final(self).waste == old(self).waste
                    &&& final(self).foundations@ == old(self).foundations@
                },
                Ok(PileMut::Foundation(pile)) => {
                    &&& id matches PileId::Foundation(k)
                    &&& old(self).foundations@.contains_key(k)
                    &&& *pile == old(self).foundations@[k]
                    &&& final(self).foundations@ == old(self).foundations@.insert(k, *final(pile))
                    &&& final(self).stock == old(self).stock
                    &&& final(self).waste == old(self).waste
                    &&& final(self).columns@ == old(self).columns@
                },
                Err(e) => {
                    &&& old(self)@.pile(id) == Err::<PileView, GameErrorView>(e@)
                    &&& final(self)@ == old(self)@
                },
            },
    {
        match id {
            PileId::Stock => Ok(PileMut::Stock(&mut self.stock)),
            PileId::Waste => Ok(PileMut::Waste(&mut self.waste)),
            PileId::Column(n) => {
                if !self.columns.contains_key(&n) {
                    return Err(GameError::ColumnNotExist(n));
                }
                match self.columns.entry(n) {
                    Entry::Occupied(entry) => Ok(PileMut::Column(entry.into_mut())),
                    Entry::Vacant(_) => Err(GameError::ColumnNotExist(n)),
                }
            },
            PileId::Foundation(n) => {
                if !self.foundations.contains_key(&n) {
                    return Err(GameError::FoundationNotExist(n));
                }
                match self.foundations.entry(n) {
                    Entry::Occupied(entry) => Ok(PileMut::Foundation(entry.into_mut())),
                    Entry::Vacant(_) => Err(GameError::FoundationNotExist(n)),
                }
            },
        }
    }

    /// Takes the top `n` cards of the pile named `id`, by that pile's rules.
    fn take_from(&mut self, id: PileId, n: usize) -> (r: Result<Vec<Card>, GameError>)
        ensures
            match old(self)@.pile(id) {
                Err(e) => r matches Err(x) && x@ == e && final(self)@ == old(self)@,
                Ok(pile) => match pile.take_error(n as nat) {
                    Some(e) => r matches Err(x) && x@ == GameErrorView::PileError(e)
                        && final(self)@ == old(self)@,
                    None => r matches Ok(cards) && cards@ == pile.taken(n as nat, Side::Top)
                        && final(self)@ == old(self)@.with_pile(
                        id,
                        pile.without(n as nat, Side::Top),
                    ),
                },
            },
    {
        let r = match self.pile_mut(id) {
            Err(e) => {
                return Err(e);
            },
            Ok(PileMut::Stock(pile)) => pile.take_cards(n, Side::Top),
            Ok(PileMut::Waste(pile)) => pile.take_cards(n, Side::Top),
            Ok(PileMut::Column(pile)) => pile.take_cards(n, Side::Top),
            Ok(PileMut::Foundation(pile)) => pile.take_cards(n, Side::Top),
        };
        proof {
            let pile = old(self)@.pile(id)->Ok_0;
            let expected = if r is Ok {
                old(self)@.with_pile(id, pile.without(n as nat, Side::Top))
            } else {
                old(self)@
            };
            assert(self@.columns =~= expected.columns);
            assert(self@.foundations =~= expected.foundations);
        }
        match r {
            Ok(cards) => Ok(cards),
            Err(e) => Err(GameError::PileError(e)),
        }
    }

    /// Places `cards` on the pile named `id`, by that pile's rules.
    fn place_on(&mut self, id: PileId, cards: Vec<Card>, face: Face) -> (r: Result<(), GameError>)
        ensures
            match old(self)@.pile(id) {
                Err(e) => r matches Err(x) && x@ == e && final(self)@ == old(self)@,
                Ok(pile) => match pile.place(cards@, face) {
                    Err(e) => r matches Err(x) && x@ == GameErrorView::PileError(e)
                        && final(self)@ == old(self)@,
                    Ok(filled) => r is Ok && final(self)@ == old(self)@.with_pile(id, filled),
                },
            },
    {
        let ghost placed = cards@;
        let r = match self.pile_mut(id) {
            Err(e) => {
                return Err(e);
            },
            Ok(PileMut::Stock(pile)) => pile.insert_cards(cards, Side::Top, face),
            Ok(PileMut::Waste(pile)) => pile.insert_cards(cards, Side::Top, face),
            Ok(PileMut::Column(pile)) => pile.insert_cards(cards, Side::Top, face),
            Ok(PileMut::Foundation(pile)) => pile.insert_cards(cards, Side::Top, face),
        };
        proof {
            let pile = old(self)@.pile(id)->Ok_0;
            let expected = if r is Ok {
                old(self)@.with_pile(id, pile.place(placed, face)->Ok_0)
            } else {
                old(self)@
            };
            assert(self@.columns =~= expected.columns);
            assert(self@.foundations =~= expected.foundations);
        }
        match r {
            Ok(()) => Ok(()),
            Err(e) => Err(GameError::PileError(e)),
        }
    }

    /// Puts `cards` on top of the pile named `id`, the first of them first,
    /// each with the face it has, whatever the pile's rules say.
    fn put_back(&mut self, id: PileId, cards: &Vec<Card>)
        requires
            old(self)@.pile(id) is Ok,
        ensures
            final(self)@ == old(self)@.with_pile(
                id,
                old(self)@.pile(id)->Ok_0.with_cards(old(self)@.pile(id)->Ok_0.cards + cards@),
            ),
    {
        match self.pile_mut(id) {
            Err(_) => {},
            Ok(PileMut::Stock(pile)) => put_on_top(pile, cards),
            Ok(PileMut::Waste(pile)) => put_on_top(pile, cards),
            Ok(PileMut::Column(pile)) => put_on_top(pile, cards),
            Ok(PileMut::Foundation(pile)) => put_on_top(pile, cards),
        }
        proof {
            let pile = old(self)@.pile(id)->Ok_0;
            let expected = old(self)@.with_pile(id, pile.with_cards(pile.cards + cards@));
            assert(self@.columns =~= expected.columns);
            assert(self@.foundations =~= expected.foundations);
        }
    }

    /// Turns the top card of the pile named `id` face up if it lies face down.
    fn reveal_top(&mut self, id: PileId)
        requires
            old(self)@.pile(id) is Ok,
        ensures
            final(self)@ == old(self)@.with_pile(id, revealed(old(self)@.pile(id)->Ok_0)),
    {
        match self.pile_mut(id) {
            Err(_) => {},
            Ok(PileMut::Stock(pile)) => turn_up_top(pile),
            Ok(PileMut::Waste(pile)) => turn_up_top(pile),
            Ok(PileMut::Column(pile)) => turn_up_top(pile),
            Ok(PileMut::Foundation(pile)) => turn_up_top(pile),
        }
        proof {
            let expected = old(self)@.with_pile(id, revealed(old(self)@.pile(id)->Ok_0));
            assert(self@.columns =~= expected.columns);
            assert(self@.foundations =~= expected.foundations);
        }
    }

    /// Turns the top card of the stock onto the waste.
    pub fn draw(&mut self) -> (r: Result<(), GameError>)
        ensures
            match old(self)@.draw() {
                Ok(after) => r is Ok && final(self)@ == after,
                Err(e) => r matches Err(x) && x@ == e && final(self)@ == old(self)@,
            },
            well_formed(old(self)@) ==> well_formed(final(self)@),
            holds_full_deck(old(self)@) ==> holds_full_deck(final(self)@),
    {
        let cards = match self.stock.take_cards(1, Side::Top) {
            Ok(cards) => cards,
            Err(_) => {
                return Err(GameError::NoCardToDraw);
            },
        };
        proof {
            lemma_place_unconditional(self.waste@, cards@, Face::Up);
            assert(self.waste@.cards + all_turned(cards@, Face::Up) =~= self.waste@.cards.push(
                old(self).stock@.cards.last().with_face(Face::Up),
            ));
            assert(self.stock@.cards =~= old(self).stock@.cards.drop_last());
            if well_formed(old(self)@) {
                lemma_draw_keeps_well_formed(old(self)@);
            }
            if holds_full_deck(old(self)@) {
                lemma_draw_keeps_full_deck(old(self)@);
            }
        }
        match self.waste.insert_cards(cards, Side::Top, Face::Up) {
            Ok(()) => Ok(()),
            Err(e) => Err(GameError::PileError(e)),
        }
    }

    /// Turns the waste over into the empty stock.
    pub fn recycle(&mut self) -> (r: Result<(), GameError>)
        ensures
            match old(self)@.recycle() {
                Ok(after) => r is Ok && final(self)@ == after,
                Err(e) => r matches Err(x) && x@ == e && final(self)@ == old(self)@,
            },
            well_formed(old(self)@) ==> well_formed(final(self)@),
            holds_full_deck(old(self)@) ==> holds_full_deck(final(self)@),
    {
        if self.waste.is_empty() {
            return Err(GameError::NothingToRecycle);
        }
        if !self.stock.is_empty() {
            return Err(GameError::StockNotEmpty);
        }
        let cards = self.waste.take_all(Side::Top);
        proof {
            lemma_place_unconditional(self.stock@, cards@, Face::Down);
            assert(cards@ =~= old(self).waste@.cards.reverse());
            if well_formed(old(self)@) {
                lemma_recycle_keeps_well_formed(old(self)@);
            }
            if holds_full_deck(old(self)@) {
                lemma_recycle_keeps_full_deck(old(self)@);
            }
            assert(self.stock@.cards + all_turned(cards@, Face::Down) =~= all_turned(
                old(self).waste@.cards.reverse(),
                Face::Down,
            ));
        }
        match self.stock.insert_cards(cards, Side::Bottom, Face::Down) {
            Ok(()) => Ok(()),
            Err(e) => Err(GameError::PileError(e)),
        }
    }

    /// Moves the top `num_cards` cards of `from` onto `to`. A refused move
    /// leaves the table as it was.
    pub fn move_cards(&mut self, num_cards: usize, from: PileId, to: PileId) -> (r: Result<
        (),
        GameError,
    >)
        ensures
            match old(self)@.move_cards(num_cards as nat, from, to) {
                Ok(after) => r is Ok && final(self)@ == after,
                Err(e) => r matches Err(x) && x@ == e && final(self)@ == old(self)@,
            },
            well_formed(old(self)@) ==> well_formed(final(self)@),
            holds_full_deck(old(self)@) ==> holds_full_deck(final(self)@),
    {
        if from == to {
            return Err(GameError::InvalidMove);
        }
        match (from, to) {
            (PileId::Stock, _) | (_, PileId::Waste) | (_, PileId::Stock) => {
                return Err(GameError::InvalidMove);
            },
            (_, _) => {},
        }
        let ghost source = old(self)@.pile(from)->Ok_0;
        let taken = match self.take_from(from, num_cards) {
            Ok(cards) => cards,
            Err(e) => {
                return Err(e);
            },
        };
        let cards = reversed(&taken);
        proof {
            assert(cards@ =~= top_cards(source, num_cards as nat));
            assert(source.without(num_cards as nat, Side::Top).cards + cards@ =~= source.cards);
        }
        match self.place_on(to, copy_cards(&cards), Face::Up) {
            Ok(()) => {},
            Err(e) => {
                self.put_back(from, &cards);
                proof {
                    assert(self@.columns =~= old(self)@.columns);
                    assert(self@.foundations =~= old(self)@.foundations);
                }
                return Err(e);
            },
        }
        if let PileId::Column(_) = from {
            self.reveal_top(from);
        }
        proof {
            let after = old(self)@.move_cards(num_cards as nat, from, to)->Ok_0;
            assert(self@.columns =~= after.columns);
            assert(self@.foundations =~= after.foundations);
            if well_formed(old(self)@) {
                lemma_move_keeps_well_formed(old(self)@, num_cards as nat, from, to);
            }
            if holds_full_deck(old(self)@) {
                lemma_move_keeps_full_deck(old(self)@, num_cards as nat, from, to);
            }
        }
        Ok(())
    }

    /// Whether the game is won.
    pub fn is_won(&self) -> (won: bool)
        ensures
            won == self@.is_won(),
    {
        if !self.stock.is_empty() || !self.waste.is_empty() {
            return false;
        }
        let mut k: u16 = 0;
        while k < 256
            invariant
                k <= 256,
                forall|j: u8|
                    j < k && #[trigger] self@.columns.contains_key(j)
                        ==> self@.columns[j].cards.len() == 0,
            decreases 256 - k,
        {
            let key: u8 = k as u8;
            match self.columns.get(&key) {
                Some(column) => {
                    if !column.is_empty() {
                        assert(self@.columns.contains_key(key));
                        return false;
                    }
                },
                None => {},
            }
            k = k + 1;
        }
        true
    }

    /// The names of the foundations, in ascending order of their index.
    pub fn foundation_ids(&self) -> (ids: Vec<PileId>)
        ensures
            ids@ == self@.foundation_ids(),
    {
        let mut ids: Vec<PileId> = Vec::new();
        let mut k: u16 = 0;
        while k < 256
            invariant
                k <= 256,
                ids@ == keys_below(self@.foundations.dom(), k as nat).map_values(
                    |k: u8| PileId::Foundation(k),
                ),
            decreases 256 - k,
        {
            let key: u8 = k as u8;
            let ghost before = keys_below(self@.foundations.dom(), k as nat);
            if self.foundations.contains_key(&key) {
                ids.push(PileId::Foundation(key));
                proof {
                    assert(ids@ =~= before.push(key).map_values(|k: u8| PileId::Foundation(k)));
                }
            }
            k = k + 1;
        }
        ids
    }

    /// The names of the columns, in ascending order of their index.
    pub fn column_ids(&self) -> (ids: Vec<PileId>)
        ensures
            ids@ == self@.column_ids(),
    {
        let mut ids: Vec<PileId> = Vec::new();
        let mut k: u16 = 0;
        while k < 256
            invariant
                k <= 256,
                ids@ == keys_below(self@.columns.dom(), k as nat).map_values(
                    |k: u8| PileId::Column(k),
                ),
            decreases 256 - k,
        {
            let key: u8 = k as u8;
            let ghost before = keys_below(self@.columns.dom(), k as nat);
            if self.columns.contains_key(&key) {
                ids.push(PileId::Column(key));
                proof {
                    assert(ids@ =~= before.push(key).map_values(|k: u8| PileId::Column(k)));
                }
            }
            k = k + 1;
        }
        ids
    }
}

/// Puts `cards` on top of `pile`, the first of them first, each with the face
/// it has.
fn put_on_top<P: PileBehavior>(pile: &mut P, cards: &Vec<Card>)
    ensures
        final(pile)@ == old(pile)@.with_cards(old(pile)@.cards + cards@),
{
    let mut i: usize = 0;
    proof {
        assert(pile@.cards + cards@.subrange(0, 0) =~= pile@.cards);
    }
    while i < cards.len()
        invariant
            i <= cards.len(),
            pile@ == old(pile)@.with_cards(old(pile)@.cards + cards@.subrange(0, i as int)),
        decreases cards.len() - i,
    {
        let card = cards[i];
        pile.raw_insert_card(card, Side::Top, card.face);
        proof {
            assert(card.with_face(card.face) == card);
            assert(pile@.cards =~= old(pile)@.cards + cards@.subrange(0, i + 1));
        }
        i = i + 1;
    }
    proof {
        assert(cards@.subrange(0, cards@.len() as int) =~= cards@);
    }
}

/// Turns the top card of `pile` face up if it lies face down.
fn turn_up_top<P: PileBehavior>(pile: &mut P)
    ensures
        final(pile)@ == revealed(old(pile)@),
{
    match pile.peek_mut(Side::Top) {
        Some(card) => {
            match card.face {
                Face::Down => {
                    card.flip();
                },
                Face::Up => {},
            }
        },
        None => {},
    }
    proof {
        let before = old(pile)@;
        if before.cards.len() > 0 && before.cards.last().face == Face::Up {
            assert(before.cards.update(before.cards.len() - 1, before.cards.last())
                =~= before.cards);
        }
    }
}

/// The same cards in the opposite order.
fn reversed(cards: &Vec<Card>) -> (r: Vec<Card>)
    ensures
        r@ == cards@.reverse(),
{
    let n = cards.len();
    let mut r: Vec<Card> = Vec::with_capacity(n);
    let mut i: usize = 0;
    while i < n
        invariant
            i <= n,
            n == cards@.len(),
            r@.len() == i,
            forall|j: int| 0 <= j < i ==> r@[j] == cards@[n - 1 - j],
        decreases n - i,
    {
        r.push(cards[n - 1 - i]);
        i = i + 1;
    }
    proof {
        assert(r@ =~= cards@.reverse());
    }
    r
}

} // verus!
