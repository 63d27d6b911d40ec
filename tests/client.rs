use cambio::cards::{Card, Face, Suit};
use cambio::client::{ClientState, Reaction};
use cambio::data::PlayerId;
use cambio::decisions::Decision;
use cambio::event::client::Event as ClientEvent;
use cambio::event::server::Event as ServerEvent;

#[test]
fn client_plays_its_turn() {
    let me = PlayerId(1);
    let mut state = ClientState::new(me);
    assert_eq!(state.react(&ServerEvent::LobbyInfo { player_count: 1 }), Reaction::Wait);
    assert_eq!(state.react(&ServerEvent::LobbyInfo { player_count: 2 }), Reaction::Send(ClientEvent::Start));
    assert_eq!(state.react(&ServerEvent::Joined { id: PlayerId(2) }), Reaction::Send(ClientEvent::GetLobbyInfo));
    assert_eq!(state.react(&ServerEvent::TurnStart { id: me }), Reaction::Wait);
    let card = Card::Normal { suit: Suit::Hearts, face: Face::King };
    assert_eq!(state.react(&ServerEvent::DrawCard(card)), Reaction::Wait);
    assert_eq!(state.card_in_hand, Some(card));
    assert_eq!(
        state.react(&ServerEvent::WaitingForDecision),
        Reaction::Send(ClientEvent::Decision(Decision::Discard))
    );
    assert_eq!(state.card_in_hand, None);
    assert_eq!(state.react(&ServerEvent::WaitingForSnap), Reaction::Wait);
    assert_eq!(state.react(&ServerEvent::TurnStart { id: PlayerId(2) }), Reaction::Wait);
    assert_eq!(state.react(&ServerEvent::WaitingForSnap), Reaction::Send(ClientEvent::Snap));
    assert_eq!(state.react(&ServerEvent::WaitingForDecision), Reaction::Wait);
    assert_eq!(state.react(&ServerEvent::ServerClosing), Reaction::Stop);
}
