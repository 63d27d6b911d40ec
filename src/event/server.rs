//! Messages the server sends to clients.

use crate::cards::Card;
use crate::data::{PlayerData, PlayerId};
use vstd::prelude::*;

verus! {

/// A server message.
#[derive(Debug, Clone)]
pub enum Event {
    /// Ready to start serving the event loop for the client.
    Enter,
    /// The game has restarted.
    Restart,
    /// Information about the lobby; can be requested any time.
    LobbyInfo { player_count: usize },
    /// Answer to a client's `Join`; never broadcast.
    AssignId { id: PlayerId },
    /// A player joined.
    Joined { id: PlayerId },
    /// A player left.
    Left { id: PlayerId },
    /// Start of a round.
    RoundStart(usize),
    /// Cards are reset and shuffled.
    Setup,
    /// Players draw their first four cards.
    FirstDraw,
    /// A player views the first two cards of their hand.
    FirstPeek(Card, Card),
    /// The turn of a player has started.
    TurnStart { id: PlayerId },
    /// The player on turn drew this card.
    DrawCard(Card),
    /// Waiting for the player on turn to decide.
    WaitingForDecision,
    /// The decision is being played.
    PlayAction,
    /// Waiting for a possible snap.
    WaitingForSnap,
    /// The turn has ended.
    EndTurn,
    /// Cambio has been called.
    CambioCall,
    /// Every player's cards.
    ShowAll(Vec<PlayerData>),
    /// The round's winner.
    Winner(Winner),
    /// End of a round.
    RoundEnd,
    /// Asks every client whether to play again.
    ConfirmNewRound,
    /// The game has ended.
    GameEnd,
    /// The server is closing.
    ServerClosing,
}

/// Who won a round.
#[derive(Debug, Clone, Copy, PartialEq, Eq, Structural)]
pub enum Winner {
    Player { uuid: PlayerId },
    Tied,
}

} // verus!
