use cambio::acceptor::{accept_connection, assign_id, id_handshake, on_disconnect, retrieve_or_create_id, retrieve_or_create_id_with, Admission};
use cambio::cards::Deck;
use cambio::data::{take_starting_cards, GameData, PlayerData, PlayerId};
use cambio::driver::Outgoing;
use cambio::event::client::{Event as ClientEvent, Join};
use cambio::event::server::Event as ServerEvent;
use cambio::hub::{Connection, Registry};
use cambio::worker::CloseReason;

#[test]
fn unknown_existing_id_gets_a_fresh_one() {
    let mut data = GameData::new();
    data.try_add_player(PlayerData::with_id(PlayerId(1)));
    let id = retrieve_or_create_id_with(&mut data, Join::Existing(PlayerId(42)), PlayerId(7));
    assert_eq!(id, PlayerId(7));
    assert!(data.has_player(PlayerId(7)));
    assert!(!data.has_player(PlayerId(42)));
    assert!(matches!(assign_id(id), ServerEvent::AssignId { id: PlayerId(7) }));
}

#[test]
fn new_join_is_seated_last() {
    let mut data = GameData::new();
    let a = retrieve_or_create_id(&mut data, Join::New);
    let b = retrieve_or_create_id(&mut data, Join::New);
    assert_ne!(a, b);
    assert_eq!(data.player_count(), 2);
    assert_eq!(data.get_player(1).id(), b);
}

#[test]
fn rejoin_by_id_keeps_seat_and_hand() {
    let mut data = GameData::new();
    let u1 = retrieve_or_create_id_with(&mut data, Join::New, PlayerId(11));
    let mut deck = Deck::full();
    take_starting_cards(&mut deck, &mut data, 0);
    let hand: Vec<_> = data.get_player(0).cards().to_vec();
    let again = id_handshake(&mut data, Some(ClientEvent::Join(Join::Existing(u1))), PlayerId(99));
    assert_eq!(again, Some(u1));
    assert_eq!(data.player_count(), 1);
    assert_eq!(data.get_player(0).cards(), &hand[..]);
}

#[test]
fn connection_refused_while_not_accepting() {
    let mut data = GameData::new();
    let r = accept_connection(false, &mut data, Some(ClientEvent::Join(Join::New)), PlayerId(5));
    assert_eq!(r, Admission::Dropped);
    assert_eq!(data.player_count(), 0);
}

#[test]
fn handshake_needs_a_join_first() {
    let mut data = GameData::new();
    assert_eq!(accept_connection(true, &mut data, Some(ClientEvent::Start), PlayerId(5)), Admission::Refused);
    assert_eq!(accept_connection(true, &mut data, None, PlayerId(5)), Admission::Refused);
    assert_eq!(data.player_count(), 0);
    assert_eq!(
        accept_connection(true, &mut data, Some(ClientEvent::Join(Join::New)), PlayerId(5)),
        Admission::Admitted(PlayerId(5))
    );
    assert!(data.has_player(PlayerId(5)));
}

#[test]
fn disconnect_tells_the_others() {
    let mut registry = Registry::new();
    registry.register(PlayerId(1));
    registry.register(PlayerId(2));
    let (out, conn) = on_disconnect(&mut registry, PlayerId(2), CloseReason::Error);
    assert!(matches!(out, Outgoing::Broadcast(ServerEvent::Left { id: PlayerId(2) })));
    assert_eq!(conn, Connection::Disconnect(PlayerId(2), CloseReason::Error));
    assert!(!registry.contains(PlayerId(2)));
    assert!(registry.contains(PlayerId(1)));
}
