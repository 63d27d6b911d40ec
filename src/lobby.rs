//! The lobby: players come and go until the host starts the game or the lobby
//! is full.

use crate::config::{MAX_PLAYER_COUNT, MIN_PLAYER_COUNT};
use crate::data::{has_id, GameData, PlayerId, PlayerView};
use crate::event::client::Event as ClientEvent;
use crate::hub::Connection;
use std::ops::ControlFlow;
use vstd::prelude::*;

verus! {

/// The host: the player in seat 0.
pub open spec fn host_of(players: Seq<PlayerView>) -> Option<PlayerId> {
    if players.len() > 0 {
        Some(players[0].id)
    } else {
        None
    }
}

/// The host's id, if anyone is seated.
pub fn host_id(data: &GameData) -> (r: Option<PlayerId>)
    ensures
        r == host_of(data@),
{
    if data.player_count() > 0 {
        Some(data.get_player(0).id())
    } else {
        None
    }
}

/// Whether a message starts the game: only `Start`, and only from the host.
pub fn try_start_game(id: PlayerId, event: ClientEvent, data: &GameData) -> (r: ControlFlow<()>)
    ensures
        r == (if event == ClientEvent::Start && host_of(data@) == Some(id) {
            ControlFlow::<(), ()>::Break(())
        } else {
            ControlFlow::<(), ()>::Continue(())
        }),
{
    if let ClientEvent::Start = event {
        if let Some(host) = host_id(data) {
            if host == id {
                return ControlFlow::Break(());
            }
        }
    }
    ControlFlow::Continue(())
}

/// Something the lobby observes.
#[derive(Debug, Clone, Copy)]
pub enum Input {
    /// A message from a player.
    Client(PlayerId, ClientEvent),
    /// A player connected or disconnected.
    Connection(Connection),
}

/// Handles one observation of the lobby; returns whether the lobby is over. A
/// player who disconnects leaves their seat. The lobby ends when the host
/// sends `Start` while at least two players are seated, or when it is full.
pub fn lobby_step(data: &mut GameData, input: Input) -> (r: bool)
    requires
        old(data).wf(),
    ensures
        final(data).wf(),
        input matches Input::Connection(Connection::Disconnect(id, _)) ==> (if has_id(old(data)@, id) {
            exists|i: int|
                0 <= i < old(data)@.len() && old(data)@[i].id == id && final(data)@ == old(data)@.remove(i)
        } else {
            final(data)@ == old(data)@
        }),
        !(input matches Input::Connection(Connection::Disconnect(..))) ==> final(data)@ == old(data)@,
        r == ((input matches Input::Client(id, event) && event == ClientEvent::Start
            && old(data)@.len() >= MIN_PLAYER_COUNT && host_of(old(data)@) == Some(id))
            || final(data)@.len() == MAX_PLAYER_COUNT),
{
    match input {
        Input::Client(id, event) => {
            if data.player_count() >= MIN_PLAYER_COUNT {
                if let ControlFlow::Break(()) = try_start_game(id, event, data) {
                    return true;
                }
            }
        },
        Input::Connection(Connection::Disconnect(id, _)) => {
            data.remove_player(id);
        },
        Input::Connection(Connection::Connect(_)) => {},
    }
    data.player_count() == MAX_PLAYER_COUNT
}

} // verus!
