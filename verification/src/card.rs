//! Playing cards: rank, suit, colour and orientation.

use std::cmp::Ordering;
use vstd::prelude::*;
use vstd::std_specs::cmp::PartialOrdSpecImpl;
use vstd::string::StringExecFns;

verus! {

/// The thirteen ranks, ordered from `Ace` (lowest) to `King` (highest).
#[derive(Debug, Clone, Copy, PartialEq, Eq, Structural, Hash, Ord)]
pub enum Rank {
    Ace,
    Two,
    Three,
    Four,
    Five,
    Six,
    Seven,
    Eight,
    Nine,
    Ten,
    Jack,
    Queen,
    King,
}

/// The four suits.
#[derive(Debug, Clone, Copy, PartialEq, Eq, Structural, Hash)]
pub enum Suit {
    Heart,
    Club,
    Diamond,
    Spade,
}

/// The colour of a suit.
#[derive(Debug, Clone, Copy, PartialEq, Eq, Structural, Hash)]
pub enum Color {
    Black,
    Red,
}

/// How a card lies: with its rank and suit showing, or hidden.
#[derive(Debug, Clone, Copy, PartialEq, Eq, Structural, Hash)]
pub enum Face {
    Up,
    Down,
}

/// A card. Two cards are the same card of the deck when rank and suit agree;
/// the face is where the card currently lies, not part of its identity.
#[derive(Debug, Clone, Copy, PartialEq, Eq, Structural)]
pub struct Card {
    pub rank: Rank,
    pub suit: Suit,
    pub face: Face,
}

impl Rank {
    /// The number printed on the card: 1 for the ace up to 13 for the king.
    pub open spec fn value(self) -> int {
        match self {
            Rank::Ace => 1,
            Rank::Two => 2,
            Rank::Three => 3,
            Rank::Four => 4,
            Rank::Five => 5,
            Rank::Six => 6,
            Rank::Seven => 7,
            Rank::Eight => 8,
            Rank::Nine => 9,
            Rank::Ten => 10,
            Rank::Jack => 11,
            Rank::Queen => 12,
            Rank::King => 13,
        }
    }

    /// The rank that carries the number `v`; the ace for anything out of range.
    pub open spec fn from_value(v: int) -> Rank {
        if v == 2 {
            Rank::Two
        } else if v == 3 {
            Rank::Three
        } else if v == 4 {
            Rank::Four
        } else if v == 5 {
            Rank::Five
        } else if v == 6 {
            Rank::Six
        } else if v == 7 {
            Rank::Seven
        } else if v == 8 {
            Rank::Eight
        } else if v == 9 {
            Rank::Nine
        } else if v == 10 {
            Rank::Ten
        } else if v == 11 {
            Rank::Jack
        } else if v == 12 {
            Rank::Queen
        } else if v == 13 {
            Rank::King
        } else {
            Rank::Ace
        }
    }

    /// The next rank up, or nothing above the king.
    pub open spec fn spec_higher(self) -> Option<Rank> {
        if self == Rank::King {
            None
        } else {
            Some(Rank::from_value(self.value() + 1))
        }
    }

    /// The next rank down, or nothing below the ace.
    pub open spec fn spec_lower(self) -> Option<Rank> {
        if self == Rank::Ace {
            None
        } else {
            Some(Rank::from_value(self.value() - 1))
        }
    }

    /// Numbers and ranks correspond one to one.
    pub proof fn lemma_value_round_trip(self)
        ensures
            1 <= self.value() <= 13,
            Rank::from_value(self.value()) == self,
    {
    }

    /// The number printed on the card: 1 for the ace up to 13 for the king.
    pub fn number(&self) -> (n: u8)
        ensures
            n == self.value(),
    {
        match self {
            Self::Ace => 1,
            Self::Two => 2,
            Self::Three => 3,
            Self::Four => 4,
            Self::Five => 5,
            Self::Six => 6,
            Self::Seven => 7,
            Self::Eight => 8,
            Self::Nine => 9,
            Self::Ten => 10,
            Self::Jack => 11,
            Self::Queen => 12,
            Self::King => 13,
        }
    }

    /// The next rank up, or nothing above the king.
    pub fn higher(&self) -> (r: Option<Self>)
        ensures
            r == self.spec_higher(),
            r matches Some(h) ==> h.value() == self.value() + 1,
            r is None <==> *self == Rank::King,
    {
        match self {
            Self::Ace => Some(Self::Two),
            Self::Two => Some(Self::Three),
            Self::Three => Some(Self::Four),
            Self::Four => Some(Self::Five),
            Self::Five => Some(Self::Six),
            Self::Six => Some(Self::Seven),
            Self::Seven => Some(Self::Eight),
            Self::Eight => Some(Self::Nine),
            Self::Nine => Some(Self::Ten),
            Self::Ten => Some(Self::Jack),
            Self::Jack => Some(Self::Queen),
            Self::Queen => Some(Self::King),
            Self::King => None,
        }
    }

    /// The next rank down, or nothing below the ace.
    pub fn lower(&self) -> (r: Option<Self>)
        ensures
            r == self.spec_lower(),
            r matches Some(l) ==> l.value() == self.value() - 1,
            r is None <==> *self == Rank::Ace,
    {
        match self {
            Self::Ace => None,
            Self::Two => Some(Self::Ace),
            Self::Three => Some(Self::Two),
            Self::Four => Some(Self::Three),
            Self::Five => Some(Self::Four),
            Self::Six => Some(Self::Five),
            Self::Seven => Some(Self::Six),
            Self::Eight => Some(Self::Seven),
            Self::Nine => Some(Self::Eight),
            Self::Ten => Some(Self::Nine),
            Self::Jack => Some(Self::Ten),
            Self::Queen => Some(Self::Jack),
            Self::King => Some(Self::Queen),
        }
    }
}

impl PartialOrd for Rank {
    fn partial_cmp(&self, other: &Self) -> (r: Option<Ordering>) {
        let a: u8 = self.number();
        let b: u8 = other.number();
        if a < b {
            Some(Ordering::Less)
        } else if a == b {
            Some(Ordering::Equal)
        } else {
            Some(Ordering::Greater)
        }
    }
}

impl PartialOrdSpecImpl for Rank {
    open spec fn obeys_partial_cmp_spec() -> bool {
        true
    }

    open spec fn partial_cmp_spec(&self, other: &Self) -> Option<Ordering> {
        if self.value() < other.value() {
            Some(Ordering::Less)
        } else if self.value() == other.value() {
            Some(Ordering::Equal)
        } else {
            Some(Ordering::Greater)
        }
    }
}

impl Suit {
    /// Clubs and spades are black, hearts and diamonds red.
    pub open spec fn spec_color(self) -> Color {
        match self {
            Suit::Club | Suit::Spade => Color::Black,
            Suit::Heart | Suit::Diamond => Color::Red,
        }
    }

    /// The name of the suit in words.
    pub open spec fn text(self) -> Seq<char> {
        match self {
            Suit::Club => "club"@,
            Suit::Diamond => "diamond"@,
            Suit::Heart => "heart"@,
            Suit::Spade => "spade"@,
        }
    }

    /// The name of the suit in words.
    pub fn to_string(&self) -> (text: String)
        ensures
            text@ == self.text(),
    {
        match self {
            Self::Club => String::from_str("club"),
            Self::Diamond => String::from_str("diamond"),
            Self::Heart => String::from_str("heart"),
            Self::Spade => String::from_str("spade"),
        }
    }

    /// The colour of the suit.
    pub fn color(&self) -> (c: Color)
        ensures
            c == self.spec_color(),
    {
        match self {
            Self::Club | Self::Spade => Color::Black,
            Self::Heart | Self::Diamond => Color::Red,
        }
    }
}

impl Color {
    /// The other colour.
    pub open spec fn spec_opposite(self) -> Color {
        match self {
            Color::Black => Color::Red,
            Color::Red => Color::Black,
        }
    }

    /// The other colour.
    pub fn opposite(&self) -> (c: Self)
        ensures
            c == self.spec_opposite(),
            c != *self,
    {
        match self {
            Self::Black => Self::Red,
            Self::Red => Self::Black,
        }
    }
}

impl Face {
    /// The other face.
    pub open spec fn flipped(self) -> Face {
        match self {
            Face::Up => Face::Down,
            Face::Down => Face::Up,
        }
    }

    /// Turns the face over.
    pub fn flip(&mut self)
        ensures
            *final(self) == old(self).flipped(),
    {
        *self = match *self {
            Self::Up => Self::Down,
            Self::Down => Self::Up,
        };
    }
}

impl Card {
    /// The same card lying with the given face.
    pub open spec fn with_face(self, face: Face) -> Card {
        Card { rank: self.rank, suit: self.suit, face }
    }

    /// The colour of the card's suit.
    pub open spec fn spec_color(self) -> Color {
        self.suit.spec_color()
    }

    /// Whether `self` and `other` are the same card of the deck.
    pub open spec fn same_card(self, other: Card) -> bool {
        self.rank == other.rank && self.suit == other.suit
    }

    /// The card of this rank and suit, lying with this face.
    pub fn new(rank: Rank, suit: Suit, face: Face) -> (c: Self)
        ensures
            c == (Card { rank, suit, face }),
    {
        Self { rank, suit, face }
    }

    /// The rank of the card.
    pub fn rank(&self) -> (r: &Rank)
        ensures
            *r == self.rank,
    {
        &self.rank
    }

    /// The suit of the card.
    pub fn suit(&self) -> (s: &Suit)
        ensures
            *s == self.suit,
    {
        &self.suit
    }

    /// How the card lies.
    pub fn face(&self) -> (f: &Face)
        ensures
            *f == self.face,
    {
        &self.face
    }

    /// Turns the card to `val` and hands the card back for further changes.
    pub fn set_face(&mut self, val: Face) -> (r: &mut Self)
        ensures
            *r == old(self).with_face(val),
            *final(self) == *final(r),
    {
        self.face = val;
        self
    }

    /// The colour of the card's suit.
    pub fn color(&self) -> (c: Color)
        ensures
            c == self.spec_color(),
    {
        self.suit().color()
    }

    /// Turns the card over.
    pub fn flip(&mut self)
        ensures
            *final(self) == old(self).with_face(old(self).face.flipped()),
    {
        self.face.flip();
    }
}

/// The suits in the order in which a new deck holds them.
pub open spec fn suit_at(k: int) -> Suit {
    if k == 1 {
        Suit::Club
    } else if k == 2 {
        Suit::Diamond
    } else if k == 3 {
        Suit::Spade
    } else {
        Suit::Heart
    }
}

/// A new deck: hearts, clubs, diamonds, spades, each suit from ace to king,
/// every card face up.
pub open spec fn deck_order() -> Seq<Card> {
    Seq::new(
        52,
        |i: int| Card { rank: Rank::from_value(i % 13 + 1), suit: suit_at(i / 13), face: Face::Up },
    )
}

/// The fifty-two cards of a new deck, in the order of [`deck_order`].
pub fn all_cards() -> (cards: Vec<Card>)
    ensures
        cards@ == deck_order(),
{
    let suits = [Suit::Heart, Suit::Club, Suit::Diamond, Suit::Spade];
    let ranks = [
        Rank::Ace,
        Rank::Two,
        Rank::Three,
        Rank::Four,
        Rank::Five,
        Rank::Six,
        Rank::Seven,
        Rank::Eight,
        Rank::Nine,
        Rank::Ten,
        Rank::Jack,
        Rank::Queen,
        Rank::King,
    ];
    let mut cards: Vec<Card> = Vec::new();
    let mut s: usize = 0;
    while s < 4
        invariant
            s <= 4,
            suits@ == seq![Suit::Heart, Suit::Club, Suit::Diamond, Suit::Spade],
            ranks@ == seq![
                Rank::Ace,
                Rank::Two,
                Rank::Three,
                Rank::Four,
                Rank::Five,
                Rank::Six,
                Rank::Seven,
                Rank::Eight,
                Rank::Nine,
                Rank::Ten,
                Rank::Jack,
                Rank::Queen,
                Rank::King,
            ],
            cards@ == deck_order().subrange(0, 13 * s),
        decreases 4 - s,
    {
        let mut r: usize = 0;
        while r < 13
            invariant
                s < 4,
                r <= 13,
                suits@ == seq![Suit::Heart, Suit::Club, Suit::Diamond, Suit::Spade],
                ranks@ == seq![
                    Rank::Ace,
                    Rank::Two,
                    Rank::Three,
                    Rank::Four,
                    Rank::Five,
                    Rank::Six,
                    Rank::Seven,
                    Rank::Eight,
                    Rank::Nine,
                    Rank::Ten,
                    Rank::Jack,
                    Rank::Queen,
                    Rank::King,
                ],
                cards@ == deck_order().subrange(0, 13 * s + r),
            decreases 13 - r,
        {
            cards.push(Card::new(ranks[r], suits[s], Face::Up));
            proof {
                let i = 13 * s + r;
                assert(i / 13 == s && i % 13 == r);
                assert(ranks@[r as int] == Rank::from_value(r + 1));
                assert(suits@[s as int] == suit_at(s as int));
                assert(cards@ =~= deck_order().subrange(0, i + 1));
            }
            r = r + 1;
        }
        s = s + 1;
    }
    proof {
        assert(deck_order().subrange(0, 52) =~= deck_order());
    }
    cards
}

} // verus!
