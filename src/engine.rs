//! The game engine: a state machine over rounds and turns. It performs no I/O
//! and keeps no clock; callers pass the current time, in milliseconds of a
//! monotonic clock, to every operation that looks at deadlines.

use crate::cards::{fresh_deck, Card, Deck};
use crate::decisions::Decision;
use std::collections::VecDeque;
use vstd::prelude::*;

verus! {

/// How long the player on turn has to decide, in milliseconds.
pub const MAX_DECISION_TIME: u64 = 10_000;

/// How long a snap may follow a played decision, in milliseconds.
pub const MAX_SNAP_TIME: u64 = 2_000;

/// How long players have to confirm another round, in milliseconds.
pub const MAX_NEW_ROUND_CONFIRM_TIME: u64 = 10_000;

/// Where the game stands. Waiting states remember when the wait began.
#[derive(Debug, Clone, Copy, PartialEq, Eq, Structural)]
pub enum State {
    Pregame,
    StartRound { round: usize, reset_deck: bool },
    StartTurn { round: usize, turn: usize },
    DrawCard { round: usize, turn: usize, card: Card },
    WaitingForDecision { round: usize, turn: usize, started: u64 },
    PlayDecision { round: usize, turn: usize, decision: Decision },
    WaitingForSnaps { round: usize, turn: usize, started: u64 },
    Snapped { round: usize, turn: usize, card: Card },
    EndTurn { round: usize, turn: usize },
    EndRound { round: usize },
    FindWinner { round: usize },
    WaitingForNewRound { round: usize, confirmations: usize, started: u64 },
    CambioCall { round: usize },
    Finished,
}

/// What the engine reports to the code driving it, in the order it happens.
#[derive(Debug, Clone, Copy, PartialEq, Eq, Structural)]
pub enum Event {
    Setup,
    FirstDraw,
    FirstPeek,
    StartRound(usize),
    StartTurn(usize),
    DrawCard(usize, Card),
    WaitForDecision,
    WaitForSnap,
    EndTurn(usize),
    WaitForNewRound { confirmations: usize },
    EndRound(usize),
    Cambio,
    FindWinner,
    Exit,
}

/// Milliseconds from `started` to `now`; zero when `now` is earlier.
pub open spec fn elapsed(now: u64, started: u64) -> int {
    if now >= started {
        now - started
    } else {
        0
    }
}

/// A counter moved on by one, staying put at the largest `usize`.
pub open spec fn bump(n: usize) -> usize {
    if n < usize::MAX {
        (n + 1) as usize
    } else {
        n
    }
}

/// The state one `advance` leads to, given the cards in the deck before it.
pub open spec fn next_state(s: State, deck: Seq<Card>, now: u64) -> State {
    match s {
        State::Pregame => State::StartRound { round: 0, reset_deck: false },
        State::StartRound { round, .. } => State::StartTurn { round, turn: round },
        State::StartTurn { round, turn } => {
            if deck.len() > 0 {
                State::DrawCard { round, turn, card: deck.last() }
            } else {
                State::EndRound { round }
            }
        },
        State::DrawCard { round, turn, .. } => State::WaitingForDecision {
            round,
            turn,
            started: now,
        },
        State::WaitingForDecision { round, turn, started } => {
            if elapsed(now, started) >= MAX_DECISION_TIME {
                State::EndTurn { round, turn }
            } else {
                s
            }
        },
        State::PlayDecision { round, turn, .. } => State::WaitingForSnaps {
            round,
            turn,
            started: now,
        },
        State::WaitingForSnaps { round, turn, started } => {
            if elapsed(now, started) >= MAX_SNAP_TIME {
                State::EndTurn { round, turn }
            } else {
                s
            }
        },
        State::Snapped { round, turn, .. } => State::EndTurn { round, turn },
        State::EndTurn { round, turn } => {
            if deck.len() == 0 {
                State::EndRound { round }
            } else {
                State::StartTurn { round, turn: bump(turn) }
            }
        },
        State::CambioCall { round } => State::EndRound { round },
        State::EndRound { round } => State::FindWinner { round },
        State::FindWinner { round } => State::WaitingForNewRound {
            round,
            confirmations: 0,
            started: now,
        },
        State::WaitingForNewRound { started, .. } => {
            if elapsed(now, started) >= MAX_NEW_ROUND_CONFIRM_TIME {
                State::Finished
            } else {
                s
            }
        },
        State::Finished => State::Finished,
    }
}

/// The events one `advance` out of a state reports. A waiting state reports
/// itself once, when it is entered, and nothing while the wait goes on.
pub open spec fn emitted(s: State, deck: Seq<Card>) -> Seq<Event> {
    match s {
        State::Pregame => seq![],
        State::StartRound { round, .. } => seq![Event::Setup, Event::StartRound(round)],
        State::StartTurn { turn, .. } => seq![Event::StartTurn(turn)],
        State::DrawCard { turn, card, .. } => seq![Event::DrawCard(turn, card), Event::WaitForDecision],
        State::WaitingForDecision { .. } => seq![],
        State::PlayDecision { .. } => seq![Event::WaitForSnap],
        State::WaitingForSnaps { .. } => seq![],
        State::Snapped { .. } => seq![],
        State::EndTurn { turn, .. } => seq![Event::EndTurn(turn)],
        State::CambioCall { .. } => seq![Event::Cambio],
        State::EndRound { round } => seq![Event::EndRound(round)],
        State::FindWinner { .. } => seq![Event::FindWinner, Event::WaitForNewRound { confirmations: 0 }],
        State::WaitingForNewRound { .. } => seq![],
        State::Finished => seq![Event::Exit],
    }
}

/// How the deck may change in one `advance`: a new round shuffles it (after
/// refilling it, if asked), a new turn draws its top card, nothing else touches it.
pub open spec fn deck_after(s: State, before: Seq<Card>, after: Seq<Card>) -> bool {
    match s {
        State::StartRound { reset_deck, .. } => {
            let base = if reset_deck {
                fresh_deck()
            } else {
                before
            };
            &&& after.to_multiset() == base.to_multiset()
            &&& after.len() == base.len()
        },
        State::StartTurn { .. } => {
            if before.len() > 0 {
                after == before.drop_last()
            } else {
                after == before
            }
        },
        _ => after == before,
    }
}

/// No wait has outlived its limit at time `now`.
pub open spec fn no_overdue_wait(s: State, now: u64) -> bool {
    match s {
        State::WaitingForDecision { started, .. } => elapsed(now, started) < MAX_DECISION_TIME,
        State::WaitingForSnaps { started, .. } => elapsed(now, started) < MAX_SNAP_TIME,
        State::WaitingForNewRound { started, .. } => elapsed(now, started)
            < MAX_NEW_ROUND_CONFIRM_TIME,
        _ => true,
    }
}

/// The state after a decision arrives at time `at`.
pub open spec fn after_decision(s: State, decision: Decision, at: u64) -> State {
    match s {
        State::WaitingForDecision { round, turn, started } => {
            if elapsed(at, started) <= MAX_DECISION_TIME {
                State::PlayDecision { round, turn, decision }
            } else {
                State::EndTurn { round, turn }
            }
        },
        _ => s,
    }
}

/// The state after a snap arrives at time `at`.
pub open spec fn after_snap(s: State, card: Card, at: u64) -> State {
    match s {
        State::WaitingForSnaps { round, turn, started } => {
            if elapsed(at, started) <= MAX_SNAP_TIME {
                State::Snapped { round, turn, card }
            } else {
                State::EndTurn { round, turn }
            }
        },
        _ => s,
    }
}

/// The state after one more confirmation arrives at time `at`, when `needed` are needed.
pub open spec fn after_confirmation(s: State, needed: usize, at: u64) -> State {
    match s {
        State::WaitingForNewRound { round, confirmations, started } => {
            let count = bump(confirmations);
            if elapsed(at, started) <= MAX_NEW_ROUND_CONFIRM_TIME {
                if count >= needed {
                    State::StartRound { round: bump(round), reset_deck: true }
                } else {
                    State::WaitingForNewRound { round, confirmations: count, started }
                }
            } else {
                State::Finished
            }
        },
        _ => s,
    }
}

/// The deadline of a waiting state, in milliseconds; `None` when not waiting.
pub open spec fn deadline_of(s: State) -> Option<u64> {
    match s {
        State::WaitingForDecision { started, .. } => Some(
            sat_add(started, MAX_DECISION_TIME),
        ),
        State::WaitingForSnaps { started, .. } => Some(sat_add(started, MAX_SNAP_TIME)),
        State::WaitingForNewRound { started, .. } => Some(
            sat_add(started, MAX_NEW_ROUND_CONFIRM_TIME),
        ),
        _ => None,
    }
}

pub open spec fn sat_add(a: u64, b: u64) -> u64 {
    if a + b <= u64::MAX {
        (a + b) as u64
    } else {
        u64::MAX
    }
}

/// What a game is: its deck, its state, and the events not yet polled.
pub struct GameView {
    pub deck: Seq<Card>,
    pub state: State,
    pub events: Seq<Event>,
}

/// The engine of one game.
pub struct Game {
    pub deck: Deck,
    state: State,
    events: VecDeque<Event>,
}

impl View for Game {
    type V = GameView;

    closed spec fn view(&self) -> GameView {
        GameView { deck: self.deck@, state: self.state, events: self.events@ }
    }
}

fn saturating_bump(n: usize) -> (r: usize)
    ensures
        r == bump(n),
{
    if n < usize::MAX {
        n + 1
    } else {
        n
    }
}

fn since(now: u64, started: u64) -> (r: u64)
    ensures
        r == elapsed(now, started),
{
    if now >= started {
        now - started
    } else {
        0
    }
}

impl Game {
    /// Performs exactly one transition out of the current state, queueing the
    /// events it reports.
    pub fn advance(&mut self, now: u64)
        ensures
            final(self)@.state == next_state(old(self)@.state, old(self)@.deck, now),
            final(self)@.events == old(self)@.events + emitted(old(self)@.state, old(self)@.deck),
            deck_after(old(self)@.state, old(self)@.deck, final(self)@.deck),
            no_overdue_wait(final(self)@.state, now),
    {
        let ghost before = self@.deck;
        self.state = match self.state {
            State::Pregame => State::StartRound { round: 0, reset_deck: false },
            State::StartRound { round, reset_deck } => {
                self.output_event(Event::Setup);
                // a new round starts from a refilled deck, then shuffles it
                if reset_deck {
                    self.deck = Deck::full();
                }
                self.deck.shuffle();
                self.output_event(Event::StartRound(round));
                // each round starts one seat further on than the last
                State::StartTurn { round, turn: round }
            },
            State::StartTurn { round, turn } => {
                self.output_event(Event::StartTurn(turn));
                match self.deck.draw() {
                    Some(card) => State::DrawCard { round, turn, card },
                    None => State::EndRound { round },
                }
            },
            State::DrawCard { round, turn, card } => {
                self.output_event(Event::DrawCard(turn, card));
                self.output_event(Event::WaitForDecision);
                State::WaitingForDecision { round, turn, started: now }
            },
            State::WaitingForDecision { round, turn, started } => {
                if since(now, started) >= MAX_DECISION_TIME {
                    // no decision in time: the turn ends without a snap window
                    State::EndTurn { round, turn }
                } else {
                    State::WaitingForDecision { round, turn, started }
                }
            },
            State::PlayDecision { round, turn, decision } => {
                // the effects of a decision are not played out
                self.output_event(Event::WaitForSnap);
                State::WaitingForSnaps { round, turn, started: now }
            },
            State::WaitingForSnaps { round, turn, started } => {
                if since(now, started) >= MAX_SNAP_TIME {
                    State::EndTurn { round, turn }
                } else {
                    State::WaitingForSnaps { round, turn, started }
                }
            },
            State::Snapped { round, turn, card } => State::EndTurn { round, turn },
            State::EndTurn { round, turn } => {
                self.output_event(Event::EndTurn(turn));
                // the round goes on while cards are left
                if self.deck.is_empty() {
                    State::EndRound { round }
                } else {
                    State::StartTurn { round, turn: saturating_bump(turn) }
                }
            },
            State::CambioCall { round } => {
                self.output_event(Event::Cambio);
                State::EndRound { round }
            },
            State::EndRound { round } => {
                self.output_event(Event::EndRound(round));
                State::FindWinner { round }
            },
            State::FindWinner { round } => {
                self.output_event(Event::FindWinner);
                self.output_event(Event::WaitForNewRound { confirmations: 0 });
                State::WaitingForNewRound { round, confirmations: 0, started: now }
            },
            State::WaitingForNewRound { round, confirmations, started } => {
                if since(now, started) >= MAX_NEW_ROUND_CONFIRM_TIME {
                    // nobody wanted another round in time: the game ends
                    State::Finished
                } else {
                    State::WaitingForNewRound { round, confirmations, started }
                }
            },
            State::Finished => {
                self.output_event(Event::Exit);
                State::Finished
            },
        };
        proof {
            let s = old(self)@.state;
            if s is StartRound || s is StartTurn {
            } else {
                assert(self@.deck == before);
            }
            assert(self@.events =~= old(self)@.events + emitted(old(self)@.state, old(self)@.deck));
        }
    }
}

impl Game {
    /// A game before its first round, with a fresh deck.
    pub fn new() -> (r: Game)
        ensures
            r@ == (GameView { deck: fresh_deck(), state: State::Pregame, events: Seq::empty() }),
    {
        Self::new_with(Deck::full(), State::Pregame)
    }

    /// A game in the given state, over the given deck, with no queued events.
    pub fn new_with(deck: Deck, state: State) -> (r: Game)
        ensures
            r@ == (GameView { deck: deck@, state, events: Seq::empty() }),
    {
        Game { deck, state, events: VecDeque::new() }
    }

    /// Takes the oldest queued event, if any.
    pub fn poll_events(&mut self) -> (r: Option<Event>)
        ensures
            old(self)@.events.len() == 0 ==> r is None && final(self)@ == old(self)@,
            old(self)@.events.len() > 0 ==> r == Some(old(self)@.events[0]) && final(self)@ == (
            GameView { events: old(self)@.events.drop_first(), ..old(self)@ }),
    {
        let r = self.events.pop_front();
        proof {
            if old(self)@.events.len() > 0 {
                assert(self@.events =~= old(self)@.events.drop_first());
            }
        }
        r
    }

    /// Calls cambio. Allowed while waiting for a decision or a snap, and while a
    /// decision is played (which first runs to its end, at time `now`).
    /// Returns `false`, changing nothing, in any other state.
    pub fn cambio_call(&mut self, now: u64) -> (r: bool)
        ensures
            r == (old(self)@.state is WaitingForDecision || old(self)@.state is WaitingForSnaps
                || old(self)@.state is PlayDecision),
            !r ==> final(self)@ == old(self)@,
            old(self)@.state is WaitingForDecision || old(self)@.state is WaitingForSnaps
                ==> final(self)@ == (GameView {
                state: State::CambioCall { round: state_round(old(self)@.state) },
                ..old(self)@
            }),
            old(self)@.state is PlayDecision ==> final(self)@ == (GameView {
                state: State::CambioCall { round: state_round(old(self)@.state) },
                events: old(self)@.events + seq![Event::WaitForSnap],
                ..old(self)@
            }),
    {
        match self.state {
            State::WaitingForDecision { round, .. } | State::WaitingForSnaps { round, .. } => {
                self.state = State::CambioCall { round };
            },
            State::PlayDecision { round, .. } => {
                // a played decision may change the deck, so it resolves first
                self.advance(now);
                self.state = State::CambioCall { round };
            },
            _ => return false,
        }
        true
    }

    /// A decision arrives at time `decided_at`. Only a wait for a decision
    /// takes it: in time, the decision is played; too late, the turn ends.
    pub fn handle_decision(&mut self, decision: Decision, decided_at: u64)
        ensures
            final(self)@ == (GameView {
                state: after_decision(old(self)@.state, decision, decided_at),
                ..old(self)@
            }),
    {
        if let State::WaitingForDecision { round, turn, started } = self.state {
            if since(decided_at, started) <= MAX_DECISION_TIME {
                self.state = State::PlayDecision { round, turn, decision };
            } else {
                self.state = State::EndTurn { round, turn };
            }
        }
    }

    /// A snap arrives at time `snapped_at`. Only a wait for snaps takes it: in
    /// time, the snap is recorded; too late, the turn ends.
    pub fn handle_snap(&mut self, card: Card, snapped_at: u64)
        ensures
            final(self)@ == (GameView {
                state: after_snap(old(self)@.state, card, snapped_at),
                ..old(self)@
            }),
    {
        if let State::WaitingForSnaps { round, turn, started } = self.state {
            if since(snapped_at, started) <= MAX_SNAP_TIME {
                self.state = State::Snapped { round, turn, card };
            } else {
                self.state = State::EndTurn { round, turn };
            }
        }
    }

    /// One more player confirms another round at time `confirmed_at`. Once
    /// `needed_confirms` are in, in time, the next round starts from a full deck;
    /// a confirmation after the deadline ends the game.
    pub fn confirm_new_round(&mut self, needed_confirms: usize, confirmed_at: u64)
        ensures
            final(self)@ == (GameView {
                state: after_confirmation(old(self)@.state, needed_confirms, confirmed_at),
                ..old(self)@
            }),
    {
        if let State::WaitingForNewRound { round, confirmations, started } = self.state {
            let count = saturating_bump(confirmations);
            if since(confirmed_at, started) <= MAX_NEW_ROUND_CONFIRM_TIME {
                if count >= needed_confirms {
                    self.state = State::StartRound { round: saturating_bump(round), reset_deck: true };
                } else {
                    self.state = State::WaitingForNewRound { round, confirmations: count, started };
                }
            } else {
                self.state = State::Finished;
            }
        }
    }

    /// Declines another round: a wait for confirmations ends the game.
    pub fn skip_new_round(&mut self)
        ensures
            old(self)@.state is WaitingForNewRound ==> final(self)@ == (GameView {
                state: State::Finished,
                ..old(self)@
            }),
            !(old(self)@.state is WaitingForNewRound) ==> final(self)@ == old(self)@,
    {
        if let State::WaitingForNewRound { .. } = self.state {
            self.state = State::Finished;
        }
    }

    /// When the current wait runs out, in milliseconds; `None` when not waiting.
    pub fn poll_wait_deadline(&self) -> (r: Option<u64>)
        ensures
            r == deadline_of(self@.state),
    {
        match self.state {
            State::WaitingForDecision { started, .. } => Some(
                started.saturating_add(MAX_DECISION_TIME),
            ),
            State::WaitingForSnaps { started, .. } => Some(started.saturating_add(MAX_SNAP_TIME)),
            State::WaitingForNewRound { started, .. } => Some(
                started.saturating_add(MAX_NEW_ROUND_CONFIRM_TIME),
            ),
            _ => None,
        }
    }

    pub fn deck(&self) -> (r: &Deck)
        ensures
            r@ == self@.deck,
    {
        &self.deck
    }

    /// The deck, to deal from.
    pub fn deck_mut(&mut self) -> (r: &mut Deck)
        ensures
            r@ == old(self)@.deck,
            final(self)@ == (GameView { deck: final(r)@, ..old(self)@ }),
    {
        &mut self.deck
    }

    pub fn current_state(&self) -> (r: &State)
        ensures
            *r == self@.state,
    {
        &self.state
    }

    fn output_event(&mut self, event: Event)
        ensures
            final(self)@ == (GameView { events: old(self)@.events.push(event), ..old(self)@ }),
    {
        self.events.push_back(event);
    }
}

/// The round a state belongs to; zero for states outside any round.
pub open spec fn state_round(s: State) -> usize {
    match s {
        State::StartRound { round, .. } => round,
        State::StartTurn { round, .. } => round,
        State::DrawCard { round, .. } => round,
        State::WaitingForDecision { round, .. } => round,
        State::PlayDecision { round, .. } => round,
        State::WaitingForSnaps { round, .. } => round,
        State::Snapped { round, .. } => round,
        State::EndTurn { round, .. } => round,
        State::EndRound { round } => round,
        State::FindWinner { round } => round,
        State::WaitingForNewRound { round, .. } => round,
        State::CambioCall { round } => round,
        _ => 0,
    }
}

impl Default for Game {
    fn default() -> (r: Game)
        ensures
            r@ == (GameView { deck: fresh_deck(), state: State::Pregame, events: Seq::empty() }),
    {
        Game::new()
    }
}

} // verus!
