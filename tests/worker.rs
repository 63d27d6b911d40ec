use cambio::event::client::Event as ClientEvent;
use cambio::event::server::Event as ServerEvent;
use cambio::worker::{step, try_handle_early, Action, CloseReason, Command, Input};
use std::ops::ControlFlow;

#[test]
fn early_handling() {
    assert!(matches!(try_handle_early(3, ClientEvent::Leave), Ok(ControlFlow::Break(CloseReason::Request))));
    assert!(matches!(
        try_handle_early(3, ClientEvent::GetLobbyInfo),
        Ok(ControlFlow::Continue(ServerEvent::LobbyInfo { player_count: 3 }))
    ));
    assert!(matches!(try_handle_early(3, ClientEvent::Snap), Err(ClientEvent::Snap)));
}

#[test]
fn worker_steps() {
    assert!(matches!(step(1, Input::Outbound(Command::Event(ServerEvent::GameEnd))), Action::Write(ServerEvent::GameEnd)));
    assert!(matches!(step(1, Input::Outbound(Command::Close)), Action::Stop(CloseReason::Request)));
    assert!(matches!(step(1, Input::OutboundClosed), Action::Stop(CloseReason::Exhausted)));
    assert!(matches!(step(1, Input::InboundEnded), Action::Stop(CloseReason::Exhausted)));
    assert!(matches!(step(1, Input::InboundFailed), Action::Stop(CloseReason::Error)));
    assert!(matches!(step(2, Input::Inbound(ClientEvent::Leave)), Action::Stop(CloseReason::Request)));
    assert!(matches!(step(2, Input::Inbound(ClientEvent::GetLobbyInfo)), Action::Write(ServerEvent::LobbyInfo { player_count: 2 })));
    assert!(matches!(step(2, Input::Inbound(ClientEvent::Start)), Action::Forward(ClientEvent::Start)));
}
