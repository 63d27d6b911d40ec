use cambio::cards::{Card, Deck, Face, Suit};
use cambio::data::{take_starting_cards, GameData, PlayerData, PlayerId};

fn c(suit: Suit, face: Face) -> Card {
    Card::Normal { suit, face }
}

#[test]
fn duplicate_ids_are_refused() {
    let mut data = GameData::new();
    assert!(data.try_add_player(PlayerData::with_id(PlayerId(1))));
    assert!(data.try_add_player(PlayerData::with_id(PlayerId(2))));
    assert!(!data.try_add_player(PlayerData::with_id(PlayerId(1))));
    assert_eq!(data.player_count(), 2);
    assert!(data.has_player(PlayerId(2)));
    assert!(!data.has_player(PlayerId(3)));
    assert_eq!(data.get_player(0).id(), PlayerId(1));
    assert_eq!(data.position(PlayerId(2)), Some(1));
}

#[test]
fn remove_player_moves_later_seats_up() {
    let mut data = GameData::default();
    for i in 1..=3u128 {
        data.try_add_player(PlayerData::with_id(PlayerId(i)));
    }
    assert!(data.remove_player(PlayerId(2)));
    assert!(!data.remove_player(PlayerId(2)));
    let ids: Vec<PlayerId> = data.players().iter().map(|p| p.id()).collect();
    assert_eq!(ids, vec![PlayerId(1), PlayerId(3)]);
}

#[test]
fn new_players_get_distinct_random_ids() {
    let a = PlayerData::new();
    let b = PlayerData::default();
    assert_ne!(a.id(), b.id());
    assert!(a.cards().is_empty());
}

#[test]
fn take_starting_cards_deals_four_from_the_top() {
    let mut deck = Deck::full();
    let mut data = GameData::new();
    data.try_add_player(PlayerData::with_id(PlayerId(7)));
    take_starting_cards(&mut deck, &mut data, 0);
    assert_eq!(deck.len(), 50);
    assert_eq!(
        data.get_player(0).cards(),
        &[Card::Joker, Card::Joker, c(Suit::Spades, Face::Ace), c(Suit::Spades, Face::Two)]
    );
    // jokers 0 + 0, ace 1, two 2
    assert_eq!(data.get_player(0).score(), 3);
}

#[test]
fn score_sums_game_values() {
    let mut deck = Deck::from_cards(vec![
        c(Suit::Clubs, Face::King),
        c(Suit::Hearts, Face::King),
        c(Suit::Spades, Face::Queen),
        c(Suit::Diamonds, Face::Nine),
    ]);
    let mut data = GameData::new();
    data.try_add_player(PlayerData::with_id(PlayerId(1)));
    take_starting_cards(&mut deck, &mut data, 0);
    assert_eq!(data.get_player(0).score(), 13 - 2 + 12 + 9);
    assert!(deck.is_empty());
}

#[test]
fn clear_hands_keeps_seats() {
    let mut deck = Deck::full();
    let mut data = GameData::new();
    data.try_add_player(PlayerData::with_id(PlayerId(1)));
    take_starting_cards(&mut deck, &mut data, 0);
    data.clear_hands();
    assert_eq!(data.get_player(0).id(), PlayerId(1));
    assert!(data.get_player(0).cards().is_empty());
}
