use solitaire::card::{all_cards, Card, Color, Face, Rank, Suit};

#[test]
fn rank_neighbours() {
    assert_eq!(Rank::Ace.lower(), None);
    assert_eq!(Rank::Ace.higher(), Some(Rank::Two));
    assert_eq!(Rank::Ten.higher(), Some(Rank::Jack));
    assert_eq!(Rank::King.higher(), None);
    assert_eq!(Rank::King.lower(), Some(Rank::Queen));
    assert_eq!(Rank::Two.lower(), Some(Rank::Ace));
}

#[test]
fn rank_order_is_total() {
    assert!(Rank::Ace < Rank::Two);
    assert!(Rank::Queen < Rank::King);
    assert!(Rank::King > Rank::Ace);
    assert!(Rank::Seven <= Rank::Seven);
}

#[test]
fn suit_colors() {
    assert_eq!(Suit::Club.color(), Color::Black);
    assert_eq!(Suit::Spade.color(), Color::Black);
    assert_eq!(Suit::Heart.color(), Color::Red);
    assert_eq!(Suit::Diamond.color(), Color::Red);
    assert_eq!(Color::Red.opposite(), Color::Black);
    assert_eq!(Color::Black.opposite(), Color::Red);
}

#[test]
fn face_flips() {
    let mut face = Face::Up;
    face.flip();
    assert_eq!(face, Face::Down);
    face.flip();
    assert_eq!(face, Face::Up);
    let mut card = Card::new(Rank::Five, Suit::Club, Face::Down);
    card.flip();
    assert_eq!(*card.face(), Face::Up);
    assert_eq!(*card.rank(), Rank::Five);
    assert_eq!(*card.suit(), Suit::Club);
    assert_eq!(card.color(), Color::Black);
    card.set_face(Face::Down);
    assert_eq!(card, Card::new(Rank::Five, Suit::Club, Face::Down));
}

#[test]
fn new_deck_order() {
    let deck = all_cards();
    assert_eq!(deck.len(), 52);
    assert_eq!(deck[0], Card::new(Rank::Ace, Suit::Heart, Face::Up));
    assert_eq!(deck[12], Card::new(Rank::King, Suit::Heart, Face::Up));
    assert_eq!(deck[13], Card::new(Rank::Ace, Suit::Club, Face::Up));
    assert_eq!(deck[26], Card::new(Rank::Ace, Suit::Diamond, Face::Up));
    assert_eq!(deck[39], Card::new(Rank::Ace, Suit::Spade, Face::Up));
    assert_eq!(deck[51], Card::new(Rank::King, Suit::Spade, Face::Up));
    for i in 0..52 {
        for j in (i + 1)..52 {
            assert!(deck[i] != deck[j]);
        }
    }
}

#[test]
fn suit_names() {
    assert_eq!(Suit::Club.to_string(), "club");
    assert_eq!(Suit::Diamond.to_string(), "diamond");
    assert_eq!(Suit::Heart.to_string(), "heart");
    assert_eq!(Suit::Spade.to_string(), "spade");
}
