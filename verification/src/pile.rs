//! Pile identifiers and the rules that the four kinds of pile follow.

use crate::card::{Card, Face, Rank, Suit};
use crate::error::{CannotAcceptReasonView, PileError, PileErrorView};
use crate::text::{decimal, push_decimal};
use std::collections::VecDeque;
use vstd::prelude::*;
use vstd::string::StringExecFns;

verus! {

/// Names a pile on the table. The standard game has columns 0 to 6 and
/// foundations 0 to 3.
#[derive(Clone, Copy, Debug, PartialEq, Eq, Structural, Hash, PartialOrd, Ord)]
pub enum PileId {
    Stock,
    Waste,
    Column(u8),
    Foundation(u8),
}

impl PileId {
    /// Whether the standard game has a pile of this name.
    pub open spec fn spec_is_valid(self) -> bool {
        match self {
            PileId::Stock | PileId::Waste => true,
            PileId::Column(i) => i <= 6,
            PileId::Foundation(i) => i <= 3,
        }
    }

    /// The name of the pile in words.
    pub open spec fn text(self) -> Seq<char> {
        match self {
            PileId::Stock => "stock"@,
            PileId::Waste => "waste"@,
            PileId::Column(i) => "column "@ + decimal(i as nat),
            PileId::Foundation(i) => "foundation "@ + decimal(i as nat),
        }
    }

    /// The name of the pile in words.
    pub fn to_string(&self) -> (text: String)
        ensures
            text@ == self.text(),
    {
        match self {
            PileId::Stock => String::from_str("stock"),
            PileId::Waste => String::from_str("waste"),
            PileId::Column(i) => {
                let mut text = String::from_str("column ");
                push_decimal(&mut text, *i as usize);
                text
            },
            PileId::Foundation(i) => {
                let mut text = String::from_str("foundation ");
                push_decimal(&mut text, *i as usize);
                text
            },
        }
    }

    /// Whether the standard game has a pile of this name.
    pub fn is_valid(&self) -> (b: bool)
        ensures
            b == self.spec_is_valid(),
    {
        match self {
            PileId::Stock | PileId::Waste => true,
            PileId::Column(i) => *i <= 6,
            PileId::Foundation(i) => *i <= 3,
        }
    }
}

/// The end of a pile an operation works on. Index 0 of a pile is its bottom.
#[derive(Debug, Clone, Copy, PartialEq, Eq, Structural, PartialOrd, Ord)]
pub enum Side {
    Top,
    Bottom,
}

/// The rule set a pile follows. A foundation is bound to one suit.
#[derive(Debug, Clone, Copy, PartialEq, Eq, Structural)]
pub enum PileKind {
    Stock,
    Waste,
    Column,
    Foundation(Suit),
}

/// A pile as the rules see it: its name, its kind, and its cards from the
/// bottom (index 0) to the top (last index).
pub struct PileView {
    pub id: PileId,
    pub kind: PileKind,
    pub cards: Seq<Card>,
}

/// The message of the rejection of a card below an ace in a column.
pub open spec fn no_lower_rank_text() -> Seq<char> {
    "Top card has no lower rank"@
}

/// The message of the rejection of a card above a king in a foundation.
pub open spec fn no_higher_rank_text() -> Seq<char> {
    "Top card has no higher rank"@
}

/// How many cards, counted down from the top, lie face up without a
/// face-down card between them.
pub open spec fn face_up_run(cards: Seq<Card>) -> nat
    decreases cards.len(),
{
    if cards.len() > 0 && cards.last().face == Face::Up {
        1 + face_up_run(cards.drop_last())
    } else {
        0
    }
}

/// The cards with every face set to `face`.
pub open spec fn all_turned(cards: Seq<Card>, face: Face) -> Seq<Card> {
    Seq::new(cards.len(), |i: int| cards[i].with_face(face))
}

impl PileView {
    /// The same pile holding `cards`.
    pub open spec fn with_cards(self, cards: Seq<Card>) -> PileView {
        PileView { id: self.id, kind: self.kind, cards }
    }

    /// The most cards one take may remove.
    pub open spec fn take_limit(self) -> nat {
        match self.kind {
            PileKind::Column => face_up_run(self.cards),
            _ => 1,
        }
    }

    /// The face a card gets when it is placed with the requested `face`.
    pub open spec fn placed_face(self, face: Face) -> Face {
        match self.kind {
            PileKind::Stock => Face::Down,
            PileKind::Waste => Face::Up,
            PileKind::Column => face,
            PileKind::Foundation(_) => Face::Up,
        }
    }

    /// Why a column with these cards refuses `card`, if it does.
    pub open spec fn column_rejection(self, card: Card) -> Option<CannotAcceptReasonView> {
        if self.cards.len() > 0 {
            let top = self.cards.last();
            match top.rank.spec_lower() {
                Some(expected) => {
                    if card.rank != expected {
                        Some(CannotAcceptReasonView::WrongRank { expected, found: card.rank })
                    } else if card.spec_color() == top.spec_color() {
                        Some(
                            CannotAcceptReasonView::WrongColor {
                                expected: top.spec_color().spec_opposite(),
                                found: card.spec_color(),
                            },
                        )
                    } else {
                        None
                    }
                },
                None => Some(CannotAcceptReasonView::Other(no_lower_rank_text())),
            }
        } else if card.rank != Rank::King {
            Some(CannotAcceptReasonView::WrongRank { expected: Rank::King, found: card.rank })
        } else {
            None
        }
    }

    /// Why a foundation of `suit` with these cards refuses `card`, if it does.
    pub open spec fn foundation_rejection(self, suit: Suit, card: Card) -> Option<
        CannotAcceptReasonView,
    > {
        if card.suit != suit {
            Some(CannotAcceptReasonView::WrongSuit { expected: suit, found: card.suit })
        } else if self.cards.len() > 0 {
            match self.cards.last().rank.spec_higher() {
                Some(expected) => {
                    if card.rank != expected {
                        Some(CannotAcceptReasonView::WrongRank { expected, found: card.rank })
                    } else {
                        None
                    }
                },
                None => Some(CannotAcceptReasonView::Other(no_higher_rank_text())),
            }
        } else if card.rank != Rank::Ace {
            Some(CannotAcceptReasonView::WrongRank { expected: Rank::Ace, found: card.rank })
        } else {
            None
        }
    }

    /// Why this pile refuses `card` on its top, or `None` when it accepts it.
    pub open spec fn rejection(self, card: Card) -> Option<CannotAcceptReasonView> {
        match self.kind {
            PileKind::Stock | PileKind::Waste => None,
            PileKind::Column => self.column_rejection(card),
            PileKind::Foundation(suit) => self.foundation_rejection(suit, card),
        }
    }

    /// The pile after `card` went on top, placed with the requested `face`.
    pub open spec fn with_placed(self, card: Card, face: Face) -> PileView {
        self.with_cards(self.cards.push(card.with_face(self.placed_face(face))))
    }

    /// Placing one card: the pile that results, or the error.
    pub open spec fn place_one(self, card: Card, face: Face) -> Result<PileView, PileErrorView> {
        match self.rejection(card) {
            Some(reason) => Err(
                PileErrorView::CannotAccept { pile: self.id, cards: seq![card], reason },
            ),
            None => Ok(self.with_placed(card, face)),
        }
    }

    /// Placing `cards` one after the other, the first of them first: each must
    /// be accepted by the pile as the cards before it left it. The result is
    /// the pile with all of them on top, or the error of the first card that
    /// is refused.
    pub open spec fn place(self, cards: Seq<Card>, face: Face) -> Result<PileView, PileErrorView>
        decreases cards.len(),
    {
        if cards.len() == 0 {
            Ok(self)
        } else {
            match self.place_one(cards[0], face) {
                Ok(next) => next.place(cards.subrange(1, cards.len() as int), face),
                Err(e) => Err(e),
            }
        }
    }

    /// Why `n` cards cannot be taken, or `None` when they can.
    pub open spec fn take_error(self, n: nat) -> Option<PileErrorView> {
        if n == 0 {
            Some(PileErrorView::InvalidTakeZero { pile: self.id })
        } else if n > self.take_limit() {
            Some(
                PileErrorView::InvalidTakeTooMany {
                    pile: self.id,
                    requested: n,
                    max: self.take_limit(),
                },
            )
        } else if n > self.cards.len() {
            Some(
                PileErrorView::NotEnoughCards {
                    pile: self.id,
                    requested: n,
                    available: self.cards.len(),
                },
            )
        } else {
            None
        }
    }

    /// The `n` cards at `side`, in the order in which they leave the pile:
    /// from the top downwards, or from the bottom upwards.
    pub open spec fn taken(self, n: nat, side: Side) -> Seq<Card>
        recommends
            n <= self.cards.len(),
    {
        match side {
            Side::Top => Seq::new(n, |i: int| self.cards[self.cards.len() - 1 - i]),
            Side::Bottom => self.cards.subrange(0, n as int),
        }
    }

    /// The pile without the `n` cards at `side`.
    pub open spec fn without(self, n: nat, side: Side) -> PileView
        recommends
            n <= self.cards.len(),
    {
        match side {
            Side::Top => self.with_cards(self.cards.subrange(0, self.cards.len() - n)),
            Side::Bottom => self.with_cards(self.cards.subrange(n as int, self.cards.len() as int)),
        }
    }

    /// The position, counted from the bottom, of the card that is `index`
    /// places away from `side`.
    pub open spec fn position(self, index: nat, side: Side) -> int {
        match side {
            Side::Bottom => index as int,
            Side::Top => self.cards.len() - 1 - index,
        }
    }
}

/// Cards that a pile accepted lie on its top in the order given, each with
/// the face that the pile gives to what is placed on it.
pub proof fn lemma_place_appends(pile: PileView, cards: Seq<Card>, face: Face)
    ensures
        pile.place(cards, face) matches Ok(after) ==> after == pile.with_cards(
            pile.cards + all_turned(cards, pile.placed_face(face)),
        ),
    decreases cards.len(),
{
    if cards.len() == 0 {
        assert(pile.cards + all_turned(cards, pile.placed_face(face)) =~= pile.cards);
    } else {
        match pile.place_one(cards[0], face) {
            Ok(next) => {
                let rest = cards.subrange(1, cards.len() as int);
                lemma_place_appends(next, rest, face);
                if next.place(rest, face) is Ok {
                    assert(next.cards + all_turned(rest, pile.placed_face(face)) =~= pile.cards
                        + all_turned(cards, pile.placed_face(face)));
                }
            },
            Err(_) => {},
        }
    }
}

/// The stock and the waste accept whatever is placed on them.
pub proof fn lemma_place_unconditional(pile: PileView, cards: Seq<Card>, face: Face)
    requires
        pile.kind == PileKind::Stock || pile.kind == PileKind::Waste,
    ensures
        pile.place(cards, face) == Ok::<PileView, PileErrorView>(
            pile.with_cards(pile.cards + all_turned(cards, pile.placed_face(face))),
        ),
    decreases cards.len(),
{
    if cards.len() == 0 {
        assert(pile.cards + all_turned(cards, pile.placed_face(face)) =~= pile.cards);
    } else {
        let next = pile.with_placed(cards[0], face);
        let rest = cards.subrange(1, cards.len() as int);
        lemma_place_unconditional(next, rest, face);
        assert(next.cards + all_turned(rest, pile.placed_face(face)) =~= pile.cards + all_turned(
            cards,
            pile.placed_face(face),
        ));
    }
}

/// `std::collections::VecDeque::get_mut`: a mutable reference to the element
/// at `index`, counted from the front, or `None` when the deque is shorter.
/// Whatever is written through the reference is the element at `index`
/// afterwards, and nothing else in the deque changes.
#[verifier::external_body]
fn deque_get_mut(cards: &mut VecDeque<Card>, index: usize) -> (r: Option<&mut Card>)
    ensures
        match r {
            Some(card) => index < old(cards)@.len() && *card == old(cards)@[index as int]
                && final(cards)@ == old(cards)@.update(index as int, *final(card)),
            None => index >= old(cards)@.len() && final(cards)@ == old(cards)@,
        },
{
    cards.get_mut(index)
}

/// What the four kinds of pile have in common. A pile is fully described by
/// its [`PileView`]; the operations below are stated over it.
pub trait PileBehavior {
    /// The pile as the rules see it.
    spec fn view(&self) -> PileView;

    /// The name of the pile.
    fn id(&self) -> (id: PileId)
        ensures
            id == self@.id,
    ;

    /// How many cards the pile holds.
    fn len(&self) -> (n: usize)
        ensures
            n == self@.cards.len(),
    ;

    /// Whether the pile holds no card.
    fn is_empty(&self) -> (b: bool)
        ensures
            b == (self@.cards.len() == 0),
    {
        self.len() == 0
    }

    /// The most cards one take may remove.
    fn max_take_count(&self) -> (n: usize)
        ensures
            n == self@.take_limit(),
    ;

    /// The cards, from the bottom at the front to the top at the back.
    fn cards(&self) -> (cards: &VecDeque<Card>)
        ensures
            cards@ == self@.cards,
    ;

    /// Direct access to the cards; no rule is enforced on what is done with it.
    fn cards_mut(&mut self) -> (cards: &mut VecDeque<Card>)
        ensures
            cards@ == old(self)@.cards,
            final(self)@ == old(self)@.with_cards(final(cards)@),
    ;

    /// Removes the card at `side`, whatever the pile's rules say.
    fn raw_take_card(&mut self, side: Side) -> (r: Option<Card>)
        ensures
            match r {
                Some(card) => old(self)@.cards.len() > 0 && card == old(self)@.taken(1, side)[0]
                    && final(self)@ == old(self)@.without(1, side),
                None => old(self)@.cards.len() == 0 && final(self)@ == old(self)@,
            },
    {
        let ghost before = self@;
        let r = match side {
            Side::Top => self.cards_mut().pop_back(),
            Side::Bottom => self.cards_mut().pop_front(),
        };
        proof {
            if r is None {
                assert(self@.cards =~= before.cards);
            }
        }
        r
    }

    /// Puts `card` at `side` with the given `face`, whatever the pile's rules say.
    fn raw_insert_card(&mut self, card: Card, side: Side, face: Face)
        ensures
            final(self)@ == old(self)@.with_cards(
                match side {
                    Side::Top => old(self)@.cards.push(card.with_face(face)),
                    Side::Bottom => seq![card.with_face(face)] + old(self)@.cards,
                },
            ),
    {
        let mut card = card;
        card.set_face(face);
        match side {
            Side::Top => self.cards_mut().push_back(card),
            Side::Bottom => self.cards_mut().push_front(card),
        }
    }

    /// Removes the card at `side`; an empty pile reports that it has none.
    fn take_card(&mut self, side: Side) -> (r: Result<Card, PileError>)
        ensures
            match r {
                Ok(card) => old(self)@.cards.len() > 0 && card == old(self)@.taken(1, side)[0]
                    && final(self)@ == old(self)@.without(1, side),
                Err(e) => old(self)@.cards.len() == 0 && final(self)@ == old(self)@ && e@ == (
                PileErrorView::NotEnoughCards { pile: old(self)@.id, requested: 1, available: 0 }),
            },
    {
        let ghost before = self@;
        let card = match side {
            Side::Top => self.cards_mut().pop_back(),
            Side::Bottom => self.cards_mut().pop_front(),
        };
        match card {
            Some(card) => Ok(card),
            None => {
                proof {
                    assert(self@.cards =~= before.cards);
                }
                Err(PileError::NotEnoughCards { pile: self.id(), requested: 1, available: 0 })
            },
        }
    }

    /// Removes `n` cards from `side` and returns them in the order in which
    /// they left. Nothing is removed unless all `n` can be.
    fn take_cards(&mut self, n: usize, side: Side) -> (r: Result<Vec<Card>, PileError>)
        ensures
            match old(self)@.take_error(n as nat) {
                Some(e) => r matches Err(x) && x@ == e && final(self)@ == old(self)@,
                None => r matches Ok(cards) && cards@ == old(self)@.taken(n as nat, side)
                    && final(self)@ == old(self)@.without(n as nat, side),
            },
    {
        if n == 0 {
            return Err(PileError::InvalidTakeZero { pile: self.id() });
        }
        let max = self.max_take_count();
        if n > max {
            return Err(PileError::InvalidTakeTooMany { pile: self.id(), requested: n, max });
        }
        let available = self.len();
        if n > available {
            return Err(PileError::NotEnoughCards { pile: self.id(), requested: n, available });
        }
        let ghost before = self@;
        let mut cards: Vec<Card> = Vec::with_capacity(n);
        let mut i: usize = 0;
        proof {
            assert(before.without(0, side).cards =~= before.cards);
        }
        while i < n
            invariant
                i <= n <= available,
                available == before.cards.len(),
                self@ == before.without(i as nat, side),
                cards@ == before.taken(i as nat, side),
            decreases n - i,
        {
            let card = self.raw_take_card(side);
            cards.push(card.unwrap());
            proof {
                assert(self@.cards =~= before.without((i + 1) as nat, side).cards);
                assert(cards@ =~= before.taken((i + 1) as nat, side));
            }
            i = i + 1;
        }
        Ok(cards)
    }

    /// Empties the pile from `side` and returns the cards in the order in
    /// which they left.
    fn take_all(&mut self, side: Side) -> (r: Vec<Card>)
        ensures
            r@ == old(self)@.taken(old(self)@.cards.len(), side),
            final(self)@ == old(self)@.with_cards(Seq::empty()),
    {
        let ghost before = self@;
        let total = self.len();
        let mut result: Vec<Card> = Vec::with_capacity(total);
        let mut i: usize = 0;
        proof {
            assert(before.without(0, side).cards =~= before.cards);
        }
        while i < total
            invariant
                i <= total,
                total == before.cards.len(),
                self@ == before.without(i as nat, side),
                result@ == before.taken(i as nat, side),
            decreases total - i,
        {
            let card = self.raw_take_card(side);
            result.push(card.unwrap());
            proof {
                assert(self@.cards =~= before.without((i + 1) as nat, side).cards);
                assert(result@ =~= before.taken((i + 1) as nat, side));
            }
            i = i + 1;
        }
        proof {
            assert(self@.cards =~= Seq::<Card>::empty());
        }
        result
    }

    /// Places `card` on top if the pile's rule accepts it there. `side` does
    /// not matter: every kind of pile grows at its top.
    fn insert_card(&mut self, card: Card, side: Side, face: Face) -> (r: Result<(), PileError>)
        ensures
            match old(self)@.place_one(card, face) {
                Ok(pile) => r is Ok && final(self)@ == pile,
                Err(e) => r matches Err(x) && x@ == e && final(self)@ == old(self)@,
            },
    ;

    /// Places `cards` on top, the first of them first, if the pile accepts
    /// each in its turn. When one is refused the pile is left as it was.
    fn insert_cards(&mut self, cards: Vec<Card>, side: Side, face: Face) -> (r: Result<
        (),
        PileError,
    >)
        ensures
            match old(self)@.place(cards@, face) {
                Ok(pile) => r is Ok && final(self)@ == pile,
                Err(e) => r matches Err(x) && x@ == e && final(self)@ == old(self)@,
            },
    {
        let ghost before = self@;
        let held = self.len();
        let mut i: usize = 0;
        proof {
            assert(cards@.subrange(0, cards@.len() as int) =~= cards@);
            assert(before.cards.subrange(0, held as int) =~= before.cards);
        }
        while i < cards.len()
            invariant
                i <= cards.len(),
                before == old(self)@,
                held == before.cards.len(),
                self@.id == before.id,
                self@.kind == before.kind,
                self@.cards.len() == held + i,
                self@.cards.subrange(0, held as int) == before.cards,
                before.place(cards@, face) == self@.place(
                    cards@.subrange(i as int, cards@.len() as int),
                    face,
                ),
            decreases cards.len() - i,
        {
            let ghost current = self@;
            let ghost rest = cards@.subrange(i as int, cards@.len() as int);
            proof {
                assert(rest[0] == cards@[i as int]);
                assert(rest.subrange(1, rest.len() as int) =~= cards@.subrange(
                    i + 1,
                    cards@.len() as int,
                ));
            }
            match self.insert_card(cards[i], side, face) {
                Ok(()) => {
                    proof {
                        assert(self@.cards.subrange(0, held as int) =~= before.cards);
                    }
                },
                Err(e) => {
                    self.cards_mut().truncate(held);
                    proof {
                        assert(current.place(rest, face) == current.place_one(rest[0], face));
                        assert(self@.cards =~= before.cards);
                        assert(self@ == before);
                    }
                    return Err(e);
                },
            }
            i = i + 1;
        }
        proof {
            assert(cards@.subrange(i as int, cards@.len() as int) =~= Seq::<Card>::empty());
        }
        Ok(())
    }

    /// The card at position `index`, counted from the bottom.
    fn peek_index(&self, index: usize) -> (r: Option<Card>)
        ensures
            r == (if index < self@.cards.len() {
                Some(self@.cards[index as int])
            } else {
                None
            }),
    {
        let cards = self.cards();
        if index < cards.len() {
            Some(cards[index])
        } else {
            None
        }
    }

    /// The card at position `index`, counted from the bottom, open to change.
    fn peek_index_mut(&mut self, index: usize) -> (r: Option<&mut Card>)
        ensures
            match r {
                Some(card) => {
                    &&& index < old(self)@.cards.len()
                    &&& *card == old(self)@.cards[index as int]
                    &&& final(self)@ == old(self)@.with_cards(
                        old(self)@.cards.update(index as int, *final(card)),
                    )
                },
                None => index >= old(self)@.cards.len() && final(self)@ == old(self)@,
            },
    {
        let ghost before = self@;
        let r = deque_get_mut(self.cards_mut(), index);
        proof {
            if r is None {
                assert(before.with_cards(before.cards) == before);
            }
        }
        r
    }

    /// The card at `side`.
    fn peek(&self, side: Side) -> (r: Option<Card>)
        ensures
            r == (if self@.cards.len() > 0 {
                Some(self@.cards[self@.position(0, side)])
            } else {
                None
            }),
    {
        match side {
            Side::Top => {
                let n = self.len();
                if n == 0 {
                    None
                } else {
                    self.peek_index(n - 1)
                }
            },
            Side::Bottom => self.peek_index(0),
        }
    }

    /// The card at `side`, open to change.
    fn peek_mut(&mut self, side: Side) -> (r: Option<&mut Card>)
        ensures
            match r {
                Some(card) => {
                    &&& old(self)@.cards.len() > 0
                    &&& *card == old(self)@.cards[old(self)@.position(0, side)]
                    &&& final(self)@ == old(self)@.with_cards(
                        old(self)@.cards.update(old(self)@.position(0, side), *final(card)),
                    )
                },
                None => old(self)@.cards.len() == 0 && final(self)@ == old(self)@,
            },
    {
        match side {
            Side::Top => {
                let n = self.len();
                if n == 0 {
                    None
                } else {
                    self.peek_index_mut(n - 1)
                }
            },
            Side::Bottom => self.peek_index_mut(0),
        }
    }

    /// Copies of up to `n` cards at `side`, in the order in which a take
    /// would remove them.
    fn peek_cards(&self, n: usize, side: Side) -> (r: Vec<Card>)
        ensures
            r@ == self@.taken(if n <= self@.cards.len() { n as nat } else { self@.cards.len() }, side),
    {
        let total = self.len();
        let count = if n <= total { n } else { total };
        let cards = self.cards();
        let mut result: Vec<Card> = Vec::new();
        let mut i: usize = 0;
        while i < count
            invariant
                i <= count <= total,
                total == self@.cards.len(),
                cards@ == self@.cards,
                result@ == self@.taken(i as nat, side),
            decreases count - i,
        {
            let card = match side {
                Side::Bottom => cards[i],
                Side::Top => cards[total - 1 - i],
            };
            result.push(card);
            proof {
                assert(result@ =~= self@.taken((i + 1) as nat, side));
            }
            i = i + 1;
        }
        result
    }

    /// Copies of all cards, starting at `side`.
    fn peek_all(&self, side: Side) -> (r: Vec<Card>)
        ensures
            r@ == self@.taken(self@.cards.len(), side),
    {
        self.peek_cards(self.len(), side)
    }

    /// Turns the card that is `index` places away from `side` to `face`.
    /// Does nothing when the pile has no such card.
    fn flip_card_at(&mut self, index: usize, side: Side, face: Face)
        ensures
            final(self)@ == (if index < old(self)@.cards.len() {
                old(self)@.with_cards(
                    old(self)@.cards.update(
                        old(self)@.position(index as nat, side),
                        old(self)@.cards[old(self)@.position(index as nat, side)].with_face(face),
                    ),
                )
            } else {
                old(self)@
            }),
    {
        let n = self.len();
        if index >= n {
            return ;
        }
        let idx = match side {
            Side::Bottom => index,
            Side::Top => n - 1 - index,
        };
        match self.peek_index_mut(idx) {
            Some(card) => {
                card.set_face(face);
            },
            None => {},
        }
    }
}

} // verus!
