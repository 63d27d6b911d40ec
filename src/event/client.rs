//! Messages a client sends to the server.

use crate::data::PlayerId;
use crate::decisions::Decision;
use vstd::prelude::*;

verus! {

/// A client's message.
#[derive(Debug, Clone, Copy, PartialEq, Eq, Structural)]
pub enum Event {
    Join(Join),
    GetLobbyInfo,
    Start,
    Snap,
    Decision(Decision),
    ConfirmNewRound,
    SkipNewRound,
    Continue,
    Leave,
}

/// How a connection asks to join: as a new player, or as one already seated.
#[derive(Debug, Clone, Copy, PartialEq, Eq, Structural)]
pub enum Join {
    New,
    Existing(PlayerId),
}

} // verus!
