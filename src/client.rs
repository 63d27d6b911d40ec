//! The decisions of the bundled client: how it answers what the server sends.

use crate::cards::Card;
use crate::data::PlayerId;
use crate::decisions::{valid_set, Decision};
use crate::event::client::Event as ClientEvent;
use crate::event::server::Event as ServerEvent;
use vstd::prelude::*;

verus! {

/// What the client remembers: its own id, whose turn it is, and the card it drew.
#[derive(Debug, Clone, Copy, PartialEq, Eq, Structural)]
pub struct ClientState {
    pub id: PlayerId,
    pub turn: PlayerId,
    pub card_in_hand: Option<Card>,
}

/// What the client does about one server message.
#[derive(Debug, Clone, Copy, PartialEq, Eq, Structural)]
pub enum Reaction {
    /// Send this message.
    Send(ClientEvent),
    /// Nothing to send.
    Wait,
    /// The server is closing: stop.
    Stop,
}

impl ClientState {
    /// The state of a client just admitted under `id`; it starts as if on turn.
    pub fn new(id: PlayerId) -> (r: ClientState)
        ensures
            r == (ClientState { id, turn: id, card_in_hand: None }),
    {
        ClientState { id, turn: id, card_in_hand: None }
    }

    /// Reacts to a server message. With two players or more in the lobby it
    /// asks to start; it asks for the lobby's size whenever someone joins or
    /// leaves; on its own turn it keeps the drawn card and, when asked, plays the
    /// first decision the card allows (always `Discard`); it snaps on every other
    /// player's turn.
    pub fn react(&mut self, msg: &ServerEvent) -> (r: Reaction)
        ensures
            *msg matches ServerEvent::LobbyInfo { player_count } ==> r == (if player_count >= 2 {
                Reaction::Send(ClientEvent::Start)
            } else {
                Reaction::Wait
            }) && *final(self) == *old(self),
            (msg is Joined || msg is Left) ==> r == Reaction::Send(ClientEvent::GetLobbyInfo)
                && *final(self) == *old(self),
            *msg matches ServerEvent::TurnStart { id } ==> r == Reaction::Wait && *final(self) == (
            ClientState { turn: id, ..*old(self) }),
            *msg matches ServerEvent::DrawCard(card) ==> r == Reaction::Wait && *final(self) == (if old(
                self,
            ).turn == old(self).id {
                ClientState { card_in_hand: Some(card), ..*old(self) }
            } else {
                *old(self)
            }),
            msg is WaitingForDecision ==> (if old(self).turn == old(self).id {
                *final(self) == (ClientState { card_in_hand: None, ..*old(self) }) && r == (if old(
                    self,
                ).card_in_hand is Some {
                    Reaction::Send(ClientEvent::Decision(Decision::Discard))
                } else {
                    Reaction::Wait
                })
            } else {
                *final(self) == *old(self) && r == Reaction::Wait
            }),
            msg is WaitingForSnap ==> *final(self) == *old(self) && r == (if old(self).turn != old(
                self,
            ).id {
                Reaction::Send(ClientEvent::Snap)
            } else {
                Reaction::Wait
            }),
            msg is ServerClosing ==> r == Reaction::Stop && *final(self) == *old(self),
            !(msg is LobbyInfo || msg is Joined || msg is Left || msg is TurnStart || msg is DrawCard
                || msg is WaitingForDecision || msg is WaitingForSnap || msg is ServerClosing) ==> r
                == Reaction::Wait && *final(self) == *old(self),
    {
        match msg {
            ServerEvent::LobbyInfo { player_count } => {
                if *player_count >= 2 {
                    Reaction::Send(ClientEvent::Start)
                } else {
                    Reaction::Wait
                }
            },
            ServerEvent::Joined { .. } | ServerEvent::Left { .. } => Reaction::Send(
                ClientEvent::GetLobbyInfo,
            ),
            ServerEvent::TurnStart { id } => {
                self.turn = *id;
                Reaction::Wait
            },
            ServerEvent::DrawCard(card) => {
                if self.turn == self.id {
                    self.card_in_hand = Some(*card);
                }
                Reaction::Wait
            },
            ServerEvent::WaitingForDecision => {
                if self.turn != self.id {
                    return Reaction::Wait;
                }
                let held = self.card_in_hand;
                self.card_in_hand = None;
                match held {
                    Some(card) => {
                        let choices = valid_set(card).into_vec();
                        proof {
                            assert(choices@.contains(Decision::Discard));
                            let k = choose|k: int|
                                0 <= k < choices@.len() && choices@[k] == Decision::Discard;
                            if k > 0 {
                                assert(crate::decisions::decision_index(choices@[0])
                                    < crate::decisions::decision_index(choices@[k]));
                            }
                        }
                        let first = choices[0];
                        Reaction::Send(ClientEvent::Decision(first))
                    },
                    None => Reaction::Wait,
                }
            },
            ServerEvent::WaitingForSnap => {
                if self.turn != self.id {
                    Reaction::Send(ClientEvent::Snap)
                } else {
                    Reaction::Wait
                }
            },
            ServerEvent::ServerClosing => Reaction::Stop,
            _ => Reaction::Wait,
        }
    }
}

} // verus!
