//! Playing cards, their game values, and the deck they are drawn from.

use rand::seq::SliceRandom;
use vstd::prelude::*;

verus! {

/// The suit of a normal card.
#[derive(Debug, Clone, Copy, PartialEq, Eq, Structural)]
pub enum Suit {
    Hearts,
    Diamonds,
    Clubs,
    Spades,
}

/// The colour of a suit.
#[derive(Debug, Clone, Copy, PartialEq, Eq, Structural)]
pub enum Color {
    Red,
    Black,
}

/// The face of a normal card.
#[derive(Debug, Clone, Copy, PartialEq, Eq, Structural)]
pub enum Face {
    King,
    Queen,
    Jack,
    Ten,
    Nine,
    Eight,
    Seven,
    Six,
    Five,
    Four,
    Three,
    Two,
    Ace,
}

/// A card: a suited face card, or a joker.
#[derive(Debug, Clone, Copy, PartialEq, Eq, Structural)]
pub enum Card {
    Normal { suit: Suit, face: Face },
    Joker,
}

/// Number of cards dealt to each player at the start of a round.
pub const STARTING_DECK_LEN: usize = 4;

/// Number of cards in a full deck: 52 suited cards and two jokers.
pub const FULL_DECK_LEN: usize = 54;

pub open spec fn suit_color(suit: Suit) -> Color {
    match suit {
        Suit::Hearts | Suit::Diamonds => Color::Red,
        Suit::Clubs | Suit::Spades => Color::Black,
    }
}

/// The numeric face value: ace is 1, jack 11, queen 12, king 13.
pub open spec fn face_rank(face: Face) -> int {
    match face {
        Face::King => 13,
        Face::Queen => 12,
        Face::Jack => 11,
        Face::Ten => 10,
        Face::Nine => 9,
        Face::Eight => 8,
        Face::Seven => 7,
        Face::Six => 6,
        Face::Five => 5,
        Face::Four => 4,
        Face::Three => 3,
        Face::Two => 2,
        Face::Ace => 1,
    }
}

/// Points a card counts for: a red king is -2, a joker 0, any other card its rank.
pub open spec fn card_value(card: Card) -> int {
    match card {
        Card::Normal { suit, face } => {
            if face == Face::King && suit_color(suit) == Color::Red {
                -2
            } else {
                face_rank(face)
            }
        },
        Card::Joker => 0,
    }
}

/// Suits in the order a fresh deck holds them.
pub open spec fn suit_at(i: int) -> Suit {
    if i == 0 {
        Suit::Hearts
    } else if i == 1 {
        Suit::Diamonds
    } else if i == 2 {
        Suit::Clubs
    } else {
        Suit::Spades
    }
}

/// Faces in the order a fresh deck holds them within a suit: king down to ace.
pub open spec fn face_at(i: int) -> Face {
    if i == 0 {
        Face::King
    } else if i == 1 {
        Face::Queen
    } else if i == 2 {
        Face::Jack
    } else if i == 3 {
        Face::Ten
    } else if i == 4 {
        Face::Nine
    } else if i == 5 {
        Face::Eight
    } else if i == 6 {
        Face::Seven
    } else if i == 7 {
        Face::Six
    } else if i == 8 {
        Face::Five
    } else if i == 9 {
        Face::Four
    } else if i == 10 {
        Face::Three
    } else if i == 11 {
        Face::Two
    } else {
        Face::Ace
    }
}

/// The card at position `i` of a fresh deck.
pub open spec fn fresh_card(i: int) -> Card {
    if i < 52 {
        Card::Normal { suit: suit_at(i / 13), face: face_at(i % 13) }
    } else {
        Card::Joker
    }
}

/// A fresh deck: hearts, diamonds, clubs, spades (each king down to ace), then two jokers.
pub open spec fn fresh_deck() -> Seq<Card> {
    Seq::new(FULL_DECK_LEN as nat, |i: int| fresh_card(i))
}

impl Suit {
    /// Hearts and diamonds are red, clubs and spades black.
    pub fn color(&self) -> (r: Color)
        ensures
            r == suit_color(*self),
    {
        match self {
            Suit::Hearts => Color::Red,
            Suit::Diamonds => Color::Red,
            Suit::Clubs => Color::Black,
            Suit::Spades => Color::Black,
        }
    }
}

impl Card {
    /// The points this card adds to a hand's score.
    pub fn game_value(&self) -> (r: i8)
        ensures
            r as int == card_value(*self),
    {
        match self {
            Card::Normal { suit, face } => {
                let color = suit.color();
                match (color, face) {
                    (Color::Red, Face::King) => -2,
                    (Color::Black, Face::King) => 13,
                    (_, Face::Queen) => 12,
                    (_, Face::Jack) => 11,
                    (_, Face::Ten) => 10,
                    (_, Face::Nine) => 9,
                    (_, Face::Eight) => 8,
                    (_, Face::Seven) => 7,
                    (_, Face::Six) => 6,
                    (_, Face::Five) => 5,
                    (_, Face::Four) => 4,
                    (_, Face::Three) => 3,
                    (_, Face::Two) => 2,
                    (_, Face::Ace) => 1,
                }
            },
            Card::Joker => 0,
        }
    }
}

impl Face {
    /// The numbered face of rank `n`, for `n` from 1 (ace) to 10.
    pub fn from_number(n: u8) -> (r: Face)
        requires
            1 <= n <= 10,
        ensures
            face_rank(r) == n as int,
    {
        match n {
            10 => Face::Ten,
            9 => Face::Nine,
            8 => Face::Eight,
            7 => Face::Seven,
            6 => Face::Six,
            5 => Face::Five,
            4 => Face::Four,
            3 => Face::Three,
            2 => Face::Two,
            _ => Face::Ace,
        }
    }
}

fn suit_of_index(i: usize) -> (r: Suit)
    requires
        i < 4,
    ensures
        r == suit_at(i as int),
{
    if i == 0 {
        Suit::Hearts
    } else if i == 1 {
        Suit::Diamonds
    } else if i == 2 {
        Suit::Clubs
    } else {
        Suit::Spades
    }
}

fn face_of_index(i: usize) -> (r: Face)
    requires
        i < 13,
    ensures
        r == face_at(i as int),
{
    if i == 0 {
        Face::King
    } else if i == 1 {
        Face::Queen
    } else if i == 2 {
        Face::Jack
    } else if i == 3 {
        Face::Ten
    } else if i == 4 {
        Face::Nine
    } else if i == 5 {
        Face::Eight
    } else if i == 6 {
        Face::Seven
    } else if i == 7 {
        Face::Six
    } else if i == 8 {
        Face::Five
    } else if i == 9 {
        Face::Four
    } else if i == 10 {
        Face::Three
    } else if i == 11 {
        Face::Two
    } else {
        Face::Ace
    }
}

/// Relies on rand's `SliceRandom::shuffle` with the thread-local generator:
/// the cards are reordered, none added or lost.
#[verifier::external_body]
fn shuffle_cards(cards: &mut Vec<Card>)
    ensures
        final(cards)@.to_multiset() == old(cards)@.to_multiset(),
        final(cards)@.len() == old(cards)@.len(),
{
    cards.shuffle(&mut rand::thread_rng());
}

/// An ordered pile of cards; the end of the sequence is the top.
pub struct Deck {
    cards: Vec<Card>,
}

impl View for Deck {
    type V = Seq<Card>;

    closed spec fn view(&self) -> Seq<Card> {
        self.cards@
    }
}

impl Deck {
    /// A fresh, unshuffled deck of 54 cards.
    pub fn full() -> (r: Deck)
        ensures
            r@ == fresh_deck(),
    {
        let mut cards: Vec<Card> = Vec::with_capacity(FULL_DECK_LEN);
        let mut s: usize = 0;
        while s < 4
            invariant
                s <= 4,
                cards@.len() == 13 * s,
                forall|k: int| 0 <= k < cards@.len() ==> #[trigger] cards@[k] == fresh_card(k),
            decreases 4 - s,
        {
            let suit = suit_of_index(s);
            let mut f: usize = 0;
            while f < 13
                invariant
                    s < 4,
                    f <= 13,
                    suit == suit_at(s as int),
                    cards@.len() == 13 * s + f,
                    forall|k: int| 0 <= k < cards@.len() ==> #[trigger] cards@[k] == fresh_card(k),
                decreases 13 - f,
            {
                let face = face_of_index(f);
                let k: usize = 13 * s + f;
                assert(k / 13 == s && k % 13 == f) by (nonlinear_arith)
                    requires
                        k == 13 * s + f,
                        f < 13,
                ;
                cards.push(Card::Normal { suit, face });
                f = f + 1;
            }
            s = s + 1;
        }
        cards.push(Card::Joker);
        cards.push(Card::Joker);
        assert(cards@ =~= fresh_deck());
        Deck { cards }
    }

    /// A deck holding exactly the given cards, the last one on top.
    pub fn from_cards(cards: Vec<Card>) -> (r: Deck)
        ensures
            r@ == cards@,
    {
        Deck { cards }
    }

    /// Removes and returns the top card, or `None` when the deck is empty.
    pub fn draw(&mut self) -> (r: Option<Card>)
        ensures
            old(self)@.len() == 0 ==> r is None && final(self)@ == old(self)@,
            old(self)@.len() > 0 ==> r == Some(old(self)@.last()) && final(self)@
                == old(self)@.drop_last(),
    {
        self.cards.pop()
    }

    /// Puts the cards into a random order.
    pub fn shuffle(&mut self)
        ensures
            final(self)@.to_multiset() == old(self)@.to_multiset(),
            final(self)@.len() == old(self)@.len(),
    {
        shuffle_cards(&mut self.cards);
    }

    /// Whether no card is left.
    pub fn is_empty(&self) -> (r: bool)
        ensures
            r == (self@.len() == 0),
    {
        self.cards.len() == 0
    }

    /// Number of cards left.
    pub fn len(&self) -> (r: usize)
        ensures
            r == self@.len(),
    {
        self.cards.len()
    }

    /// The cards, bottom first.
    pub fn cards(&self) -> (r: &Vec<Card>)
        ensures
            r@ == self@,
    {
        &self.cards
    }
}

} // verus!
