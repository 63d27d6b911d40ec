use cambio::data::{GameData, PlayerData, PlayerId};
use cambio::event::client::Event as ClientEvent;
use cambio::hub::Connection;
use cambio::lobby::{host_id, lobby_step, try_start_game, Input};
use cambio::worker::CloseReason;
use std::ops::ControlFlow;

fn seated(ids: &[u128]) -> GameData {
    let mut data = GameData::new();
    for &i in ids {
        data.try_add_player(PlayerData::with_id(PlayerId(i)));
    }
    data
}

#[test]
fn only_the_host_starts() {
    let data = seated(&[1, 2]);
    assert_eq!(host_id(&data), Some(PlayerId(1)));
    assert_eq!(try_start_game(PlayerId(1), ClientEvent::Start, &data), ControlFlow::Break(()));
    assert_eq!(try_start_game(PlayerId(2), ClientEvent::Start, &data), ControlFlow::Continue(()));
    assert_eq!(try_start_game(PlayerId(1), ClientEvent::Snap, &data), ControlFlow::Continue(()));
    assert_eq!(host_id(&GameData::new()), None);
}

#[test]
fn start_needs_two_players() {
    let mut data = seated(&[1]);
    assert!(!lobby_step(&mut data, Input::Client(PlayerId(1), ClientEvent::Start)));
    let mut data = seated(&[1, 2]);
    assert!(lobby_step(&mut data, Input::Client(PlayerId(1), ClientEvent::Start)));
}

#[test]
fn host_leaving_with_one_left_waits_for_a_second_player() {
    let mut data = seated(&[1, 2]);
    let leave = Input::Connection(Connection::Disconnect(PlayerId(1), CloseReason::Exhausted));
    assert!(!lobby_step(&mut data, leave));
    assert_eq!(data.player_count(), 1);
    assert_eq!(host_id(&data), Some(PlayerId(2)));
    // the new host cannot start alone
    assert!(!lobby_step(&mut data, Input::Client(PlayerId(2), ClientEvent::Start)));
    data.try_add_player(PlayerData::with_id(PlayerId(3)));
    assert!(!lobby_step(&mut data, Input::Connection(Connection::Connect(PlayerId(3)))));
    assert!(!lobby_step(&mut data, Input::Client(PlayerId(3), ClientEvent::Start)));
    assert!(lobby_step(&mut data, Input::Client(PlayerId(2), ClientEvent::Start)));
}

#[test]
fn full_lobby_ends() {
    let mut data = seated(&[1, 2, 3, 4, 5, 6, 7, 8]);
    assert!(lobby_step(&mut data, Input::Connection(Connection::Connect(PlayerId(8)))));
    let mut data = seated(&[1, 2, 3]);
    assert!(!lobby_step(&mut data, Input::Client(PlayerId(2), ClientEvent::GetLobbyInfo)));
}
