//! The columns of the tableau.

use crate::card::{Card, Face, Rank};
use crate::error::{CannotAcceptReason, PileError};
use crate::pile::{face_up_run, PileBehavior, PileId, PileKind, PileView, Side};
use std::collections::VecDeque;
use vstd::prelude::*;
use vstd::string::StringExecFns;

verus! {

/// A column: cards are built downwards in alternating colours, and an empty
/// column takes only a king.
#[derive(Debug, PartialEq, Eq)]
pub struct Column {
    id: PileId,
    cards: VecDeque<Card>,
}

/// An empty column with the given index, as the rules see it.
pub open spec fn empty_column(id: u8) -> PileView {
    PileView { id: PileId::Column(id), kind: PileKind::Column, cards: Seq::empty() }
}

/// The cards as a new column shows them: only the last one face up.
pub open spec fn top_revealed(cards: Seq<Card>) -> Seq<Card> {
    Seq::new(
        cards.len(),
        |i: int| cards[i].with_face(if i == cards.len() - 1 { Face::Up } else { Face::Down }),
    )
}

/// The first `n` of the cards, each face down.
spec fn all_down_prefix(cards: Seq<Card>, n: int) -> Seq<Card> {
    Seq::new(n as nat, |i: int| cards[i].with_face(Face::Down))
}

impl Column {
    /// A column holding `cards`, the first at the bottom, all face down but
    /// the last. The cards must form a sequence that a column accepts card by
    /// card, starting empty.
    pub fn new(id: u8, cards: Vec<Card>) -> (col: Self)
        requires
            empty_column(id).place(cards@, Face::Down) is Ok,
        ensures
            col@ == empty_column(id).with_cards(top_revealed(cards@)),
    {
        let mut col = Self { id: PileId::Column(id), cards: VecDeque::new() };
        let n = cards.len();
        let mut i: usize = 0;
        proof {
            assert(all_down_prefix(cards@, 0) =~= Seq::<Card>::empty());
            assert(top_revealed(Seq::<Card>::empty()) =~= Seq::<Card>::empty());
            assert(cards@.subrange(0, n as int) =~= cards@);
        }
        while i < n
            invariant
                i <= n,
                n == cards@.len(),
                col.id == PileId::Column(id),
                i < n ==> col.cards@ == all_down_prefix(cards@, i as int),
                i < n ==> empty_column(id).with_cards(all_down_prefix(cards@, i as int)).place(
                    cards@.subrange(i as int, n as int),
                    Face::Down,
                ) is Ok,
                i == n ==> col.cards@ == top_revealed(cards@),
            decreases n - i,
        {
            let face = if i == n - 1 {
                Face::Up
            } else {
                Face::Down
            };
            let ghost rest = cards@.subrange(i as int, n as int);
            proof {
                assert(rest[0] == cards@[i as int]);
                assert(rest.subrange(1, rest.len() as int) =~= cards@.subrange(i + 1, n as int));
            }
            let _ = col.insert_card(cards[i], Side::Top, face);
            proof {
                if i < n - 1 {
                    assert(col.cards@ =~= all_down_prefix(cards@, i + 1));
                } else {
                    assert(col.cards@ =~= top_revealed(cards@));
                }
            }
            i = i + 1;
        }
        col
    }
}

/// Every column follows the rules of its kind.
pub broadcast proof fn lemma_column_kind(pile: Column)
    ensures
        (#[trigger] pile@).kind == PileKind::Column,
{
}

impl Clone for Column {
    fn clone(&self) -> (r: Self)
        ensures
            r@ == self@,
    {
        let cards = self.cards.clone();
        proof {
            assert(cards@ =~= self.cards@);
        }
        Column { id: self.id, cards }
    }
}

impl PileBehavior for Column {
    closed spec fn view(&self) -> PileView {
        PileView { id: self.id, kind: PileKind::Column, cards: self.cards@ }
    }

    fn id(&self) -> (id: PileId) {
        self.id
    }

    fn len(&self) -> (n: usize) {
        self.cards.len()
    }

    fn cards(&self) -> (cards: &VecDeque<Card>) {
        &self.cards
    }

    fn cards_mut(&mut self) -> (cards: &mut VecDeque<Card>) {
        &mut self.cards
    }

    fn max_take_count(&self) -> (n: usize) {
        let len = self.cards.len();
        let mut n: usize = 0;
        proof {
            assert(self.cards@.subrange(0, len as int) =~= self.cards@);
        }
        while n < len
            invariant
                n <= len,
                len == self.cards@.len(),
                face_up_run(self.cards@) == n + face_up_run(self.cards@.subrange(0, len - n)),
            decreases len - n,
        {
            let ghost below = self.cards@.subrange(0, len - n);
            proof {
                assert(below.last() == self.cards@[len - 1 - n]);
                assert(below.drop_last() =~= self.cards@.subrange(0, len - n - 1));
            }
            match self.cards[len - 1 - n].face {
                Face::Up => {
                    n = n + 1;
                },
                Face::Down => {
                    return n;
                },
            }
        }
        n
    }

    fn insert_card(&mut self, card: Card, side: Side, face: Face) -> (r: Result<(), PileError>) {
        let len = self.cards.len();
        if len > 0 {
            let top = self.cards[len - 1];
            match top.rank().lower() {
                Some(expected_rank) => {
                    if *card.rank() != expected_rank {
                        let mut cards: Vec<Card> = Vec::new();
                        cards.push(card);
                        return Err(
                            PileError::CannotAccept {
                                pile: self.id,
                                cards,
                                reason: CannotAcceptReason::WrongRank {
                                    expected: expected_rank,
                                    found: *card.rank(),
                                },
                            },
                        );
                    }
                },
                None => {
                    let mut cards: Vec<Card> = Vec::new();
                    cards.push(card);
                    return Err(
                        PileError::CannotAccept {
                            pile: self.id,
                            cards,
                            reason: CannotAcceptReason::Other(
                                String::from_str("Top card has no lower rank"),
                            ),
                        },
                    );
                },
            }
            if card.color() == top.color() {
                let mut cards: Vec<Card> = Vec::new();
                cards.push(card);
                return Err(
                    PileError::CannotAccept {
                        pile: self.id,
                        cards,
                        reason: CannotAcceptReason::WrongColor {
                            expected: top.color().opposite(),
                            found: card.color(),
                        },
                    },
                );
            }
        } else {
            if *card.rank() != Rank::King {
                let mut cards: Vec<Card> = Vec::new();
                cards.push(card);
                return Err(
                    PileError::CannotAccept {
                        pile: self.id,
                        cards,
                        reason: CannotAcceptReason::WrongRank {
                            expected: Rank::King,
                            found: *card.rank(),
                        },
                    },
                );
            }
        }
        let mut c = card;
        c.set_face(face);
        self.cards.push_back(c);
        Ok(())
    }
}

} // verus!
