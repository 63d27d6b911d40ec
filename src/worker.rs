//! Decisions of the task that owns one client's connection: what to do with
//! each command from the server and each message from the client.

use crate::event::client::Event as ClientEvent;
use crate::event::server::Event as ServerEvent;
use std::ops::ControlFlow;
use vstd::prelude::*;

verus! {

/// Why a connection closed.
#[derive(Debug, Clone, Copy, PartialEq, Eq, Structural)]
pub enum CloseReason {
    /// Closed by request of the client or the server.
    Request,
    /// The stream ended without warning.
    Exhausted,
    /// An error occurred.
    Error,
}

/// What the server asks a connection to do.
#[derive(Debug, Clone)]
pub enum Command {
    /// Write this event to the client.
    Event(ServerEvent),
    /// Close the connection.
    Close,
}

/// Something a connection task observes.
#[derive(Debug)]
pub enum Input {
    /// A command arrived from the server.
    Outbound(Command),
    /// The server's command queue closed and is drained.
    OutboundClosed,
    /// A message arrived from the client.
    Inbound(ClientEvent),
    /// The client's stream ended.
    InboundEnded,
    /// The client's stream failed to read or decode.
    InboundFailed,
}

/// What a connection task does next.
#[derive(Debug)]
pub enum Action {
    /// Write an event to the client.
    Write(ServerEvent),
    /// Hand the client's message on to the game.
    Forward(ClientEvent),
    /// Stop, for the given reason.
    Stop(CloseReason),
}

/// Handles the client messages a connection answers by itself: `Leave` closes
/// it by request, `GetLobbyInfo` is answered with the player count. Anything
/// else is handed back, to be forwarded.
pub fn try_handle_early(player_count: usize, event: ClientEvent) -> (r: Result<
    ControlFlow<CloseReason, ServerEvent>,
    ClientEvent,
>)
    ensures
        event == ClientEvent::Leave ==> r == Ok::<_, ClientEvent>(
            ControlFlow::<CloseReason, ServerEvent>::Break(CloseReason::Request),
        ),
        event == ClientEvent::GetLobbyInfo ==> r == Ok::<_, ClientEvent>(
            ControlFlow::<CloseReason, ServerEvent>::Continue(ServerEvent::LobbyInfo { player_count }),
        ),
        event != ClientEvent::Leave && event != ClientEvent::GetLobbyInfo ==> r == Err::<
            ControlFlow<CloseReason, ServerEvent>,
            _,
        >(event),
{
    match event {
        ClientEvent::Leave => Ok(ControlFlow::Break(CloseReason::Request)),
        ClientEvent::GetLobbyInfo => Ok(ControlFlow::Continue(ServerEvent::LobbyInfo { player_count })),
        e => Err(e),
    }
}

/// The next action of a connection task, given what it observed and the
/// number of seated players.
pub fn step(player_count: usize, input: Input) -> (r: Action)
    ensures
        input matches Input::Outbound(Command::Event(e)) ==> r == Action::Write(e),
        input matches Input::Outbound(Command::Close) ==> r == Action::Stop(CloseReason::Request),
        input is OutboundClosed ==> r == Action::Stop(CloseReason::Exhausted),
        input is InboundEnded ==> r == Action::Stop(CloseReason::Exhausted),
        input is InboundFailed ==> r == Action::Stop(CloseReason::Error),
        input matches Input::Inbound(e) ==> r == (if e == ClientEvent::Leave {
            Action::Stop(CloseReason::Request)
        } else if e == ClientEvent::GetLobbyInfo {
            Action::Write(ServerEvent::LobbyInfo { player_count })
        } else {
            Action::Forward(e)
        }),
{
    match input {
        Input::Outbound(Command::Event(e)) => Action::Write(e),
        Input::Outbound(Command::Close) => Action::Stop(CloseReason::Request),
        Input::OutboundClosed => Action::Stop(CloseReason::Exhausted),
        Input::Inbound(e) => match try_handle_early(player_count, e) {
            Ok(ControlFlow::Break(reason)) => Action::Stop(reason),
            Ok(ControlFlow::Continue(reply)) => Action::Write(reply),
            Err(e) => Action::Forward(e),
        },
        Input::InboundEnded => Action::Stop(CloseReason::Exhausted),
        Input::InboundFailed => Action::Stop(CloseReason::Error),
    }
}

} // verus!
