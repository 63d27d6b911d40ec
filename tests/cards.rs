use cambio::cards::{Card, Color, Deck, Face, Suit};

#[test]
fn game_values() {
    let v = |suit, face| Card::Normal { suit, face }.game_value();
    assert_eq!(v(Suit::Hearts, Face::King), -2);
    assert_eq!(v(Suit::Diamonds, Face::King), -2);
    assert_eq!(v(Suit::Clubs, Face::King), 13);
    assert_eq!(v(Suit::Spades, Face::King), 13);
    assert_eq!(v(Suit::Hearts, Face::Queen), 12);
    assert_eq!(v(Suit::Spades, Face::Jack), 11);
    assert_eq!(v(Suit::Clubs, Face::Ten), 10);
    assert_eq!(v(Suit::Clubs, Face::Seven), 7);
    assert_eq!(v(Suit::Diamonds, Face::Two), 2);
    assert_eq!(v(Suit::Diamonds, Face::Ace), 1);
    assert_eq!(Card::Joker.game_value(), 0);
}

#[test]
fn suit_colors() {
    assert!(Suit::Hearts.color() == Color::Red);
    assert!(Suit::Diamonds.color() == Color::Red);
    assert!(Suit::Clubs.color() == Color::Black);
    assert!(Suit::Spades.color() == Color::Black);
}

#[test]
fn face_from_number() {
    assert_eq!(Face::from_number(1), Face::Ace);
    assert_eq!(Face::from_number(7), Face::Seven);
    assert_eq!(Face::from_number(10), Face::Ten);
}

#[test]
fn full_deck_order() {
    let deck = Deck::full();
    let cards = deck.cards();
    assert_eq!(cards.len(), 54);
    assert_eq!(cards[0], Card::Normal { suit: Suit::Hearts, face: Face::King });
    assert_eq!(cards[12], Card::Normal { suit: Suit::Hearts, face: Face::Ace });
    assert_eq!(cards[13], Card::Normal { suit: Suit::Diamonds, face: Face::King });
    assert_eq!(cards[29], Card::Normal { suit: Suit::Clubs, face: Face::Ten });
    assert_eq!(cards[51], Card::Normal { suit: Suit::Spades, face: Face::Ace });
    assert_eq!(cards[52], Card::Joker);
    assert_eq!(cards[53], Card::Joker);
    let total: i32 = cards.iter().map(|c| c.game_value() as i32).sum();
    // two suits of 1..=13 with red kings at -2, two black suits of 1..=13
    assert_eq!(total, 2 * (91 - 15) + 2 * 91);
}

#[test]
fn draw_takes_from_the_top() {
    let mut deck = Deck::from_cards(vec![Card::Joker, Card::Normal { suit: Suit::Clubs, face: Face::Two }]);
    assert_eq!(deck.draw(), Some(Card::Normal { suit: Suit::Clubs, face: Face::Two }));
    assert_eq!(deck.draw(), Some(Card::Joker));
    assert!(deck.is_empty());
    assert_eq!(deck.draw(), None);
}

#[test]
fn shuffle_keeps_the_cards() {
    let mut deck = Deck::full();
    deck.shuffle();
    assert_eq!(deck.len(), 54);
    let mut shuffled: Vec<String> = deck.cards().iter().map(|c| format!("{:?}", c)).collect();
    let mut fresh: Vec<String> = Deck::full().cards().iter().map(|c| format!("{:?}", c)).collect();
    shuffled.sort();
    fresh.sort();
    assert_eq!(shuffled, fresh);
}
