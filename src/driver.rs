//! The decisions of the play phase: what each engine event means on the wire,
//! how client messages feed the engine, and who is told what.
//!
//! A [`Session`] owns the engine; the players are shared with the connections
//! and passed in. The caller performs the sends it plans and hands it what
//! clients send, the time, and disconnections.

use crate::cards::{Card, STARTING_DECK_LEN};
use crate::data::{has_id, take_starting_cards, top_four, GameData, PlayerId, PlayerView};
use crate::hub::Connection;
use crate::engine::{
    after_confirmation, after_decision, after_snap, deadline_of, deck_after, emitted, next_state,
    Event as EngineEvent, Game, GameView, State,
};
use crate::event::client::Event as ClientEvent;
use crate::event::server::Event as ServerEvent;
use crate::winner::{find_winner, winner_of};
use vstd::prelude::*;

verus! {

/// A send the play phase asks for.
#[derive(Debug)]
pub enum Outgoing {
    /// The same event to every live player.
    Broadcast(ServerEvent),
    /// An event for one player only.
    Unicast(ServerEvent, PlayerId),
    /// A different event for each listed player.
    PerPlayer(Vec<(PlayerId, ServerEvent)>),
    /// Close every connection.
    CloseAll,
}

/// The wire event an engine event stands for, when it maps one to one.
pub open spec fn simple_event(event: EngineEvent) -> Option<ServerEvent> {
    match event {
        EngineEvent::FirstDraw => Some(ServerEvent::FirstDraw),
        EngineEvent::StartRound(round) => Some(ServerEvent::RoundStart(round)),
        EngineEvent::WaitForDecision => Some(ServerEvent::WaitingForDecision),
        EngineEvent::WaitForSnap => Some(ServerEvent::WaitingForSnap),
        EngineEvent::EndTurn(..) => Some(ServerEvent::EndTurn),
        EngineEvent::EndRound(..) => Some(ServerEvent::RoundEnd),
        EngineEvent::Cambio => Some(ServerEvent::CambioCall),
        _ => None,
    }
}

/// Maps the engine events that stand for one broadcast wire event; hands the
/// others back.
pub fn to_server_event_simple_broadcast(event: EngineEvent) -> (r: Result<ServerEvent, EngineEvent>)
    ensures
        simple_event(event) matches Some(e) ==> r == Ok::<ServerEvent, EngineEvent>(e),
        simple_event(event) is None ==> r == Err::<ServerEvent, EngineEvent>(event),
{
    let event = match event {
        EngineEvent::FirstDraw => ServerEvent::FirstDraw,
        EngineEvent::StartRound(round) => ServerEvent::RoundStart(round),
        EngineEvent::WaitForDecision => ServerEvent::WaitingForDecision,
        EngineEvent::WaitForSnap => ServerEvent::WaitingForSnap,
        EngineEvent::EndTurn(..) => ServerEvent::EndTurn,
        EngineEvent::EndRound(..) => ServerEvent::RoundEnd,
        EngineEvent::Cambio => ServerEvent::CambioCall,
        _ => return Err(event),
    };
    Ok(event)
}

/// The seat whose turn `turn` is, among `count` seats.
pub open spec fn seat_of_turn(turn: int, count: int) -> int {
    turn % count
}

/// Seats take turns round-robin: round `round` opens at seat `round % count`,
/// and each following turn of the round passes to the next seat.
pub proof fn lemma_turn_order(
    round: usize,
    reset_deck: bool,
    turn: usize,
    deck: Seq<Card>,
    now: u64,
    count: int,
)
    requires
        count > 0,
        turn < usize::MAX,
    ensures
        next_state(State::StartRound { round, reset_deck }, deck, now) == (State::StartTurn {
            round,
            turn: round,
        }),
        seat_of_turn(round as int, count) == round as int % count,
        deck.len() > 0 ==> next_state(State::EndTurn { round, turn }, deck, now) == (State::StartTurn {
            round,
            turn: (turn + 1) as usize,
        }),
        seat_of_turn(turn + 1, count) == (seat_of_turn(turn as int, count) + 1) % count,
{
    vstd::arithmetic::div_mod::lemma_add_mod_noop(turn as int, 1, count);
    vstd::arithmetic::div_mod::lemma_mod_twice(turn as int, count);
    if count > 1 {
        vstd::arithmetic::div_mod::lemma_small_mod(1, count as nat);
    }
    vstd::arithmetic::div_mod::lemma_add_mod_noop(turn as int % count, 1, count);
}

/// The id of the player whose turn it is.
pub fn get_id_from_turn(turn: usize, data: &GameData) -> (r: PlayerId)
    requires
        data@.len() > 0,
    ensures
        r == data@[seat_of_turn(turn as int, data@.len() as int)].id,
{
    let index = turn % data.player_count();
    data.get_player(index).id()
}

/// How many seats a deck of `n` cards can deal four cards to, of `seats`.
pub open spec fn dealt_count(n: int, seats: int) -> int {
    if STARTING_DECK_LEN * seats <= n {
        seats
    } else {
        n / 4
    }
}

/// The starting hand of seat `i`, dealt from `deck` seat after seat.
pub open spec fn seat_hand(deck: Seq<Card>, i: int) -> Seq<Card> {
    top_four(deck.subrange(0, deck.len() - STARTING_DECK_LEN * i))
}

/// Starts a round's hands: every hand is emptied, then four cards from the top
/// of the deck go to each seat in order, as long as four cards are left.
pub fn setup(game: &mut Game, data: &mut GameData)
    requires
        old(data).wf(),
    ensures
        final(data).wf(),
        final(data)@.len() == old(data)@.len(),
        forall|i: int|
            0 <= i < final(data)@.len() ==> (#[trigger] final(data)@[i]).id == old(data)@[i].id
                && final(data)@[i].hand == (if i < dealt_count(
                old(game)@.deck.len() as int,
                old(data)@.len() as int,
            ) {
                seat_hand(old(game)@.deck, i)
            } else {
                Seq::<Card>::empty()
            }),
        final(game)@ == (GameView {
            deck: old(game)@.deck.subrange(
                0,
                old(game)@.deck.len() - STARTING_DECK_LEN * dealt_count(
                    old(game)@.deck.len() as int,
                    old(data)@.len() as int,
                ),
            ),
            ..old(game)@
        }),
{
    let ghost d = game@.deck;
    let ghost n = d.len() as int;
    data.clear_hands();
    let count = data.player_count();
    let mut i: usize = 0;
    assert(d.subrange(0, n) =~= d);
    while i < count && game.deck().len() >= STARTING_DECK_LEN
        invariant
            i <= count,
            count == data@.len(),
            data@.len() == old(data)@.len(),
            0 <= n - STARTING_DECK_LEN * i <= n,
            n == d.len(),
            data.wf(),
            STARTING_DECK_LEN * i <= n,
            game@ == (GameView { deck: d.subrange(0, n - STARTING_DECK_LEN * i), ..old(game)@ }),
            forall|k: int| 0 <= k < data@.len() ==> (#[trigger] data@[k]).id == old(data)@[k].id,
            forall|k: int| 0 <= k < i ==> (#[trigger] data@[k]).hand == seat_hand(d, k),
            forall|k: int| i <= k < data@.len() ==> (#[trigger] data@[k]).hand == Seq::<Card>::empty(),
        decreases count - i,
    {
        let ghost before = data@;
        assert(before[i as int].hand == Seq::<Card>::empty());
        assert(game@.deck.len() == n - STARTING_DECK_LEN * i);
        take_starting_cards(game.deck_mut(), data, i);
        assert(d.subrange(0, n - STARTING_DECK_LEN * i).subrange(
            0,
            n - STARTING_DECK_LEN * i - STARTING_DECK_LEN,
        ) =~= d.subrange(0, n - STARTING_DECK_LEN * (i + 1)));
        assert(before[i as int].hand + top_four(d.subrange(0, n - STARTING_DECK_LEN * i))
            =~= seat_hand(d, i as int));
        i = i + 1;
    }
    proof {
        if i < count {
            assert(n - STARTING_DECK_LEN * i < 4);
            assert(i == n / 4) by (nonlinear_arith)
                requires
                    n - 4 * i < 4,
                    4 * i <= n,
            ;
            assert(STARTING_DECK_LEN * count > n);
        } else {
            assert(STARTING_DECK_LEN * count <= n);
        }
    }
}

/// The private first-peek events: each player with two cards or more sees the
/// first two cards of their own hand.
pub open spec fn peek_entries(players: Seq<PlayerView>) -> Seq<(PlayerId, ServerEvent)>
    decreases players.len(),
{
    if players.len() == 0 {
        seq![]
    } else {
        let rest = peek_entries(players.drop_last());
        let p = players.last();
        if p.hand.len() >= 2 {
            rest.push((p.id, ServerEvent::FirstPeek(p.hand[0], p.hand[1])))
        } else {
            rest
        }
    }
}

/// Builds the first-peek event for every player.
pub fn first_peek(data: &GameData) -> (r: Vec<(PlayerId, ServerEvent)>)
    ensures
        r@ == peek_entries(data@),
{
    let players = data.players();
    let mut r: Vec<(PlayerId, ServerEvent)> = Vec::new();
    let mut i: usize = 0;
    while i < players.len()
        invariant
            i <= players@.len() == data@.len(),
            forall|k: int| 0 <= k < players@.len() ==> #[trigger] players@[k]@ == data@[k],
            r@ == peek_entries(data@.subrange(0, i as int)),
        decreases players@.len() - i,
    {
        let p = &players[i];
        let cards = p.cards();
        assert(data@.subrange(0, i as int + 1).drop_last() =~= data@.subrange(0, i as int));
        assert(data@.subrange(0, i as int + 1).last() == players@[i as int]@);
        if cards.len() >= 2 {
            r.push((p.id(), ServerEvent::FirstPeek(cards[0], cards[1])));
        }
        i = i + 1;
    }
    assert(data@.subrange(0, i as int) =~= data@);
    r
}

/// Announces whose turn starts; nothing when no one is seated.
pub fn start_turn(turn: usize, data: &GameData) -> (r: Option<Outgoing>)
    ensures
        data@.len() == 0 ==> r is None,
        data@.len() > 0 ==> r == Some(
            Outgoing::Broadcast(
                ServerEvent::TurnStart {
                    id: data@[seat_of_turn(turn as int, data@.len() as int)].id,
                },
            ),
        ),
{
    if data.player_count() == 0 {
        return None;
    }
    let id = get_id_from_turn(turn, data);
    Some(Outgoing::Broadcast(ServerEvent::TurnStart { id }))
}

/// Shows the drawn card to the player on turn, and to no one else.
pub fn draw_card(card: Card, turn: usize, data: &GameData) -> (r: Option<Outgoing>)
    ensures
        data@.len() == 0 ==> r is None,
        data@.len() > 0 ==> r == Some(
            Outgoing::Unicast(
                ServerEvent::DrawCard(card),
                data@[seat_of_turn(turn as int, data@.len() as int)].id,
            ),
        ),
{
    if data.player_count() == 0 {
        return None;
    }
    let id = get_id_from_turn(turn, data);
    Some(Outgoing::Unicast(ServerEvent::DrawCard(card), id))
}

/// Asks for confirmations once per round: when none are in yet, forgets the
/// last round's confirmations and asks everyone.
pub fn ask_to_confirm(confirmations: usize, confirmed: &mut Vec<PlayerId>) -> (r: Option<Outgoing>)
    ensures
        confirmations == 0 ==> r == Some(Outgoing::Broadcast(ServerEvent::ConfirmNewRound))
            && final(confirmed)@ == Seq::<PlayerId>::empty(),
        confirmations != 0 ==> r is None && final(confirmed)@ == old(confirmed)@,
{
    if confirmations == 0 {
        confirmed.clear();
        Some(Outgoing::Broadcast(ServerEvent::ConfirmNewRound))
    } else {
        None
    }
}

fn insert_new(set: &mut Vec<PlayerId>, id: PlayerId) -> (r: bool)
    ensures
        r == !old(set)@.contains(id),
        final(set)@ == (if r {
            old(set)@.push(id)
        } else {
            old(set)@
        }),
{
    let mut i: usize = 0;
    while i < set.len()
        invariant
            i <= set@.len(),
            set@ == old(set)@,
            forall|k: int| 0 <= k < i ==> set@[k] != id,
        decreases set@.len() - i,
    {
        if set[i] == id {
            return false;
        }
        i = i + 1;
    }
    set.push(id);
    true
}

/// The engine's state after a client message at time `now`, with `count`
/// players seated and `confirmed` holding who confirmed already.
pub open spec fn after_message(
    state: State,
    event: ClientEvent,
    from: PlayerId,
    confirmed: Seq<PlayerId>,
    count: usize,
    now: u64,
) -> State {
    match event {
        ClientEvent::Snap => after_snap(state, Card::Joker, now),
        ClientEvent::Decision(d) => after_decision(state, d, now),
        ClientEvent::ConfirmNewRound => {
            if confirmed.contains(from) {
                state
            } else {
                after_confirmation(state, count, now)
            }
        },
        ClientEvent::SkipNewRound => match state {
            State::WaitingForNewRound { .. } => State::Finished,
            _ => state,
        },
        _ => state,
    }
}

/// Feeds a client message to the engine. A snap carries no card to the engine
/// (a joker stands in); a confirmation counts once per player.
pub fn handle_incoming_event(
    game: &mut Game,
    player_count: usize,
    event: ClientEvent,
    from_id: PlayerId,
    confirmed: &mut Vec<PlayerId>,
    now: u64,
)
    ensures
        final(game)@ == (GameView {
            state: after_message(old(game)@.state, event, from_id, old(confirmed)@, player_count, now),
            ..old(game)@
        }),
        final(confirmed)@ == (if event == ClientEvent::ConfirmNewRound && !old(confirmed)@.contains(
            from_id,
        ) {
            old(confirmed)@.push(from_id)
        } else {
            old(confirmed)@
        }),
{
    match event {
        ClientEvent::Snap => game.handle_snap(Card::Joker, now),
        ClientEvent::Decision(decision) => game.handle_decision(decision, now),
        ClientEvent::ConfirmNewRound => {
            if insert_new(confirmed, from_id) {
                game.confirm_new_round(player_count, now);
            }
        },
        ClientEvent::SkipNewRound => game.skip_new_round(),
        _ => {},
    }
}

/// A send, as the values it carries.
pub enum SendView {
    Broadcast(ServerEvent),
    Unicast(ServerEvent, PlayerId),
    PerPlayer(Seq<(PlayerId, ServerEvent)>),
    CloseAll,
}

impl View for Outgoing {
    type V = SendView;

    open spec fn view(&self) -> SendView {
        match self {
            Outgoing::Broadcast(e) => SendView::Broadcast(*e),
            Outgoing::Unicast(e, id) => SendView::Unicast(*e, *id),
            Outgoing::PerPlayer(v) => SendView::PerPlayer(v@),
            Outgoing::CloseAll => SendView::CloseAll,
        }
    }
}

/// The values of a list of sends.
pub open spec fn sends_view(sends: Seq<Outgoing>) -> Seq<SendView> {
    sends.map_values(|o: Outgoing| o@)
}

/// The players after a round's hands are dealt from `deck`: every hand is
/// emptied, then each seat in order gets four cards while four are left.
pub open spec fn dealt_players(deck: Seq<Card>, players: Seq<PlayerView>) -> Seq<PlayerView> {
    let k = dealt_count(deck.len() as int, players.len() as int);
    Seq::new(
        players.len(),
        |i: int|
            PlayerView {
                id: players[i].id,
                hand: if i < k {
                    seat_hand(deck, i)
                } else {
                    Seq::<Card>::empty()
                },
            },
    )
}

/// The deck after an engine event is handled: a setup deals from it.
pub open spec fn dispatch_deck(event: EngineEvent, deck: Seq<Card>, seats: int) -> Seq<Card> {
    if event == EngineEvent::Setup {
        deck.subrange(0, deck.len() - STARTING_DECK_LEN * dealt_count(deck.len() as int, seats))
    } else {
        deck
    }
}

/// The players after an engine event is handled: a setup deals their hands.
pub open spec fn dispatch_players(
    event: EngineEvent,
    deck: Seq<Card>,
    players: Seq<PlayerView>,
) -> Seq<PlayerView> {
    if event == EngineEvent::Setup {
        dealt_players(deck, players)
    } else {
        players
    }
}

/// Who confirmed another round, after an engine event is handled: the first
/// call for confirmations of a round forgets the last round's.
pub open spec fn dispatch_confirmed(event: EngineEvent, confirmed: Seq<PlayerId>) -> Seq<PlayerId> {
    if event == (EngineEvent::WaitForNewRound { confirmations: 0 }) {
        Seq::empty()
    } else {
        confirmed
    }
}

/// The sends an engine event leads to, given the deck and the players before it.
#[verifier::opaque]
pub open spec fn dispatch_sends(event: EngineEvent, deck: Seq<Card>, players: Seq<PlayerView>) -> Seq<
    SendView,
> {
    match event {
        EngineEvent::Setup => seq![
            SendView::Broadcast(ServerEvent::Setup),
            SendView::Broadcast(ServerEvent::FirstDraw),
            SendView::PerPlayer(peek_entries(dealt_players(deck, players))),
        ],
        EngineEvent::FirstPeek => seq![SendView::PerPlayer(peek_entries(players))],
        EngineEvent::StartTurn(turn) => if players.len() == 0 {
            seq![]
        } else {
            seq![SendView::Broadcast(ServerEvent::TurnStart {
                id: players[seat_of_turn(turn as int, players.len() as int)].id,
            })]
        },
        EngineEvent::DrawCard(turn, card) => if players.len() == 0 {
            seq![]
        } else {
            seq![SendView::Unicast(
                ServerEvent::DrawCard(card),
                players[seat_of_turn(turn as int, players.len() as int)].id,
            )]
        },
        EngineEvent::WaitForSnap => seq![
            SendView::Broadcast(ServerEvent::PlayAction),
            SendView::Broadcast(ServerEvent::WaitingForSnap),
        ],
        EngineEvent::WaitForNewRound { confirmations } => if confirmations == 0 {
            seq![SendView::Broadcast(ServerEvent::ConfirmNewRound)]
        } else {
            seq![]
        },
        EngineEvent::FindWinner => seq![SendView::Broadcast(ServerEvent::Winner(winner_of(players)))],
        EngineEvent::Exit => seq![SendView::Broadcast(ServerEvent::GameEnd)],
        _ => match simple_event(event) {
            Some(e) => seq![SendView::Broadcast(e)],
            None => seq![],
        },
    }
}

/// Handles one engine event: returns the sends it leads to, and whether the
/// game is over. A setup deals the hands and tells each player the first two
/// cards of their own; a drawn card goes to the player on turn only; the first
/// call for confirmations of a round asks everyone once; the end of the game
/// is announced last.
pub fn dispatch(
    game: &mut Game,
    data: &mut GameData,
    confirmed: &mut Vec<PlayerId>,
    event: EngineEvent,
) -> (r: (Vec<Outgoing>, bool))
    requires
        old(data).wf(),
    ensures
        final(data).wf(),
        r.1 == (event == EngineEvent::Exit),
        sends_view(r.0@) == dispatch_sends(event, old(game)@.deck, old(data)@),
        final(game)@ == (GameView {
            deck: dispatch_deck(event, old(game)@.deck, old(data)@.len() as int),
            ..old(game)@
        }),
        final(data)@ == dispatch_players(event, old(game)@.deck, old(data)@),
        final(confirmed)@ == dispatch_confirmed(event, old(confirmed)@),
{
    let ghost deck0 = game@.deck;
    let ghost players0 = data@;
    let mut out: Vec<Outgoing> = Vec::new();
    let mut finished = false;
    if let EngineEvent::WaitForSnap = event {
        // the decision is being played, then the snap window opens
        out.push(Outgoing::Broadcast(ServerEvent::PlayAction));
        out.push(Outgoing::Broadcast(ServerEvent::WaitingForSnap));
    } else {
        match to_server_event_simple_broadcast(event) {
            Ok(e) => {
                out.push(Outgoing::Broadcast(e));
            },
            Err(complex) => match complex {
                EngineEvent::Setup => {
                    setup(game, data);
                    proof {
                        assert(data@ =~= dealt_players(deck0, players0));
                    }
                    out.push(Outgoing::Broadcast(ServerEvent::Setup));
                    out.push(Outgoing::Broadcast(ServerEvent::FirstDraw));
                    out.push(Outgoing::PerPlayer(first_peek(data)));
                },
                EngineEvent::FirstPeek => {
                    out.push(Outgoing::PerPlayer(first_peek(data)));
                },
                EngineEvent::StartTurn(turn) => {
                    match start_turn(turn, data) {
                        Some(o) => out.push(o),
                        None => {},
                    }
                },
                EngineEvent::DrawCard(turn, card) => {
                    match draw_card(card, turn, data) {
                        Some(o) => out.push(o),
                        None => {},
                    }
                },
                EngineEvent::WaitForNewRound { confirmations } => {
                    match ask_to_confirm(confirmations, confirmed) {
                        Some(o) => out.push(o),
                        None => {},
                    }
                },
                EngineEvent::FindWinner => {
                    let w = find_winner(data);
                    out.push(Outgoing::Broadcast(ServerEvent::Winner(w)));
                },
                _ => {
                    // the game is over
                    out.push(Outgoing::Broadcast(ServerEvent::GameEnd));
                    finished = true;
                },
            },
        }
    }
    reveal(dispatch_sends);
    assert(sends_view(out@) =~= dispatch_sends(event, deck0, players0));
    (out, finished)
}

/// What handling engine events works on: the deck, the players, who
/// confirmed another round, the sends so far, and whether the game is over.
pub struct PumpView {
    pub deck: Seq<Card>,
    pub players: Seq<PlayerView>,
    pub confirmed: Seq<PlayerId>,
    pub sends: Seq<SendView>,
    pub finished: bool,
}

/// Handling one engine event, as `dispatch` does it.
pub open spec fn dispatch_step(event: EngineEvent, p: PumpView) -> PumpView {
    PumpView {
        deck: dispatch_deck(event, p.deck, p.players.len() as int),
        players: dispatch_players(event, p.deck, p.players),
        confirmed: dispatch_confirmed(event, p.confirmed),
        sends: p.sends + dispatch_sends(event, p.deck, p.players),
        finished: event == EngineEvent::Exit,
    }
}

/// Handling queued engine events in order until the queue is empty or the
/// game is over: the result, and the events left in the queue.
pub open spec fn pumped(queue: Seq<EngineEvent>, p: PumpView) -> (PumpView, Seq<EngineEvent>)
    decreases queue.len(),
{
    if p.finished || queue.len() == 0 {
        (p, queue)
    } else {
        pumped(queue.drop_first(), dispatch_step(queue[0], p))
    }
}

/// With no `Exit` queued, every event is handled and the game goes on.
pub proof fn lemma_pumped_without_exit(queue: Seq<EngineEvent>, p: PumpView)
    requires
        !p.finished,
        !queue.contains(EngineEvent::Exit),
    ensures
        !pumped(queue, p).0.finished,
        pumped(queue, p).1.len() == 0,
    decreases queue.len(),
{
    if queue.len() > 0 {
        lemma_step_facts(queue[0], p);
        let tail = queue.drop_first();
        assert(queue[0] != EngineEvent::Exit) by {
            assert(queue.contains(queue[0]));
        }
        assert(!tail.contains(EngineEvent::Exit)) by {
            if tail.contains(EngineEvent::Exit) {
                let i = choose|i: int| 0 <= i < tail.len() && tail[i] == EngineEvent::Exit;
                assert(queue[i + 1] == EngineEvent::Exit);
            }
        }
        lemma_pumped_without_exit(tail, dispatch_step(queue[0], p));
    }
}

/// Handling stops right after the first `Exit`: the game is over, `GameEnd`
/// is the last send, and the events after that `Exit` stay queued.
pub proof fn lemma_pumped_stops_at_first_exit(queue: Seq<EngineEvent>, p: PumpView, j: int)
    requires
        !p.finished,
        0 <= j < queue.len(),
        queue[j] == EngineEvent::Exit,
        forall|i: int| 0 <= i < j ==> queue[i] != EngineEvent::Exit,
    ensures
        pumped(queue, p).0.finished,
        pumped(queue, p).1 == queue.subrange(j + 1, queue.len() as int),
        pumped(queue, p).0.sends.len() > 0,
        pumped(queue, p).0.sends.last() == SendView::Broadcast(ServerEvent::GameEnd),
    decreases j,
{
    lemma_step_facts(queue[0], p);
    let next = dispatch_step(queue[0], p);
    let tail = queue.drop_first();
    if j == 0 {
        assert(pumped(tail, next) == (next, tail));
        assert(tail =~= queue.subrange(1, queue.len() as int));
    } else {
        assert forall|i: int| 0 <= i < j - 1 implies tail[i] != EngineEvent::Exit by {
            assert(queue[i + 1] != EngineEvent::Exit);
        }
        lemma_pumped_stops_at_first_exit(tail, next, j - 1);
        assert(tail.subrange(j, tail.len() as int) =~= queue.subrange(j + 1, queue.len() as int));
    }
}

proof fn lemma_last_send(out: Seq<Outgoing>, sends: Seq<SendView>)
    requires
        sends_view(out) == sends,
    ensures
        sends.len() == out.len(),
        sends.len() > 0 && sends.last() == SendView::Broadcast(ServerEvent::GameEnd) ==> out.last()
            == Outgoing::Broadcast(ServerEvent::GameEnd),
{
    if sends.len() > 0 && sends.last() == SendView::Broadcast(ServerEvent::GameEnd) {
        assert(out.last()@ == sends.last());
    }
}

proof fn lemma_step_facts(event: EngineEvent, p: PumpView)
    ensures
        dispatch_step(event, p).sends == p.sends + dispatch_sends(event, p.deck, p.players),
        dispatch_step(event, p).finished == (event == EngineEvent::Exit),
        event == EngineEvent::Exit ==> dispatch_sends(event, p.deck, p.players) == seq![
            SendView::Broadcast(ServerEvent::GameEnd),
        ],
{
    reveal(dispatch_sends);
}

/// What a play session is: the engine, who confirmed another round, whether
/// the game is over, and every send planned so far.
pub struct SessionView {
    pub game: GameView,
    pub confirmed: Seq<PlayerId>,
    pub finished: bool,
    pub sent: Seq<SendView>,
}

/// The play phase of one game: the engine and the bookkeeping around it. The
/// players are passed in by the caller, who shares them with the connections.
pub struct Session {
    game: Game,
    confirmed: Vec<PlayerId>,
    finished: bool,
    sent: Ghost<Seq<SendView>>,
}

impl View for Session {
    type V = SessionView;

    closed spec fn view(&self) -> SessionView {
        SessionView {
            game: self.game@,
            confirmed: self.confirmed@,
            finished: self.finished,
            sent: self.sent@,
        }
    }
}

/// A finished session's last send announced the end of the game.
pub open spec fn ends_with_game_end(s: SessionView) -> bool {
    s.finished ==> s.sent.len() > 0 && s.sent.last() == SendView::Broadcast(ServerEvent::GameEnd)
}

impl Session {
    /// Well-formed: once the game is over, the last send announced its end.
    pub open spec fn wf(&self) -> bool {
        ends_with_game_end(self@)
    }

    /// A session over the given engine, with nothing sent yet.
    pub fn new(game: Game) -> (r: Session)
        ensures
            r@ == (SessionView {
                game: game@,
                confirmed: Seq::empty(),
                finished: false,
                sent: Seq::empty(),
            }),
            r.wf(),
    {
        Session { game, confirmed: Vec::new(), finished: false, sent: Ghost(Seq::empty()) }
    }

    pub fn game(&self) -> (r: &Game)
        ensures
            r@ == self@.game,
    {
        &self.game
    }

    /// Whether the game is over.
    pub fn is_finished(&self) -> (r: bool)
        ensures
            r == self@.finished,
    {
        self.finished
    }

    /// When the current wait runs out, if the engine is waiting.
    pub fn deadline(&self) -> (r: Option<u64>)
        ensures
            r == deadline_of(self@.game.state),
    {
        self.game.poll_wait_deadline()
    }

    /// Handles every queued engine event, in order, and returns the sends they
    /// lead to. Handling stops right after the first `Exit`, which ends the
    /// game with `GameEnd` as the last send; after the end, nothing more is sent.
    pub fn pump(&mut self, data: &mut GameData) -> (r: Vec<Outgoing>)
        requires
            old(data).wf(),
            old(self).wf(),
        ensures
            final(data).wf(),
            final(self).wf(),
            ({
                let start = PumpView {
                    deck: old(self)@.game.deck,
                    players: old(data)@,
                    confirmed: old(self)@.confirmed,
                    sends: Seq::empty(),
                    finished: old(self)@.finished,
                };
                let (f, rest) = pumped(old(self)@.game.events, start);
                &&& sends_view(r@) == f.sends
                &&& final(data)@ == f.players
                &&& final(self)@ == (SessionView {
                    game: GameView { deck: f.deck, state: old(self)@.game.state, events: rest },
                    confirmed: f.confirmed,
                    finished: f.finished,
                    sent: old(self)@.sent + f.sends,
                })
            }),
            old(self)@.finished ==> r@.len() == 0 && final(self)@ == old(self)@ && final(data)@ == old(
                data,
            )@,
            !old(self)@.finished && !old(self)@.game.events.contains(EngineEvent::Exit)
                ==> !final(self)@.finished && final(self)@.game.events.len() == 0,
            forall|j: int|
                !old(self)@.finished && 0 <= j < old(self)@.game.events.len()
                    && old(self)@.game.events[j] == EngineEvent::Exit && (forall|i: int|
                    0 <= i < j ==> old(self)@.game.events[i] != EngineEvent::Exit)
                    ==> final(self)@.finished && final(self)@.game.events == old(
                    self,
                )@.game.events.subrange(j + 1, old(self)@.game.events.len() as int) && r@.len() > 0
                    && r@.last() == Outgoing::Broadcast(ServerEvent::GameEnd),
    {
        let ghost start = PumpView {
            deck: self@.game.deck,
            players: data@,
            confirmed: self@.confirmed,
            sends: Seq::empty(),
            finished: self@.finished,
        };
        let ghost target = pumped(self@.game.events, start);
        let ghost sent0 = self.sent@;
        proof {
            let q = self@.game.events;
            if !start.finished {
                if !q.contains(EngineEvent::Exit) {
                    lemma_pumped_without_exit(q, start);
                }
                assert forall|j: int|
                    0 <= j < q.len() && q[j] == EngineEvent::Exit && (forall|i: int|
                        0 <= i < j ==> q[i] != EngineEvent::Exit) implies target.0.finished
                    && target.1 == q.subrange(j + 1, q.len() as int) && target.0.sends.len() > 0
                    && target.0.sends.last() == SendView::Broadcast(ServerEvent::GameEnd) by {
                    lemma_pumped_stops_at_first_exit(q, start, j);
                }
            }
        }
        let mut out: Vec<Outgoing> = Vec::new();
        assert(sends_view(out@) =~= Seq::<SendView>::empty());
        while !self.finished
            invariant
                data.wf(),
                self@.game.state == old(self)@.game.state,
                self.sent@ == sent0 + sends_view(out@),
                sent0 == old(self)@.sent,
                ends_with_game_end(self@),
                old(self)@.finished ==> out@.len() == 0 && self@ == old(self)@ && data@ == old(data)@,
                target == pumped(
                    old(self)@.game.events,
                    PumpView {
                        deck: old(self)@.game.deck,
                        players: old(data)@,
                        confirmed: old(self)@.confirmed,
                        sends: Seq::empty(),
                        finished: old(self)@.finished,
                    },
                ),
                !old(self)@.finished && !old(self)@.game.events.contains(EngineEvent::Exit)
                    ==> !target.0.finished && target.1.len() == 0,
                forall|j: int|
                    !old(self)@.finished && 0 <= j < old(self)@.game.events.len()
                        && old(self)@.game.events[j] == EngineEvent::Exit && (forall|i: int|
                        0 <= i < j ==> old(self)@.game.events[i] != EngineEvent::Exit)
                        ==> target.0.finished && target.1 == old(self)@.game.events.subrange(
                        j + 1,
                        old(self)@.game.events.len() as int,
                    ) && target.0.sends.len() > 0 && target.0.sends.last() == SendView::Broadcast(
                        ServerEvent::GameEnd,
                    ),
                pumped(
                    self@.game.events,
                    PumpView {
                        deck: self@.game.deck,
                        players: data@,
                        confirmed: self@.confirmed,
                        sends: sends_view(out@),
                        finished: self@.finished,
                    },
                ) == target,
            decreases self@.game.events.len(),
        {
            let ghost queue = self@.game.events;
            let ghost cur = PumpView {
                deck: self@.game.deck,
                players: data@,
                confirmed: self@.confirmed,
                sends: sends_view(out@),
                finished: self@.finished,
            };
            match self.game.poll_events() {
                Some(event) => {
                    let (sends, finished) = dispatch(&mut self.game, data, &mut self.confirmed, event);
                    let mut sends = sends;
                    let ghost batch = sends@;
                    out.append(&mut sends);
                    proof {
                        lemma_step_facts(event, cur);
                        assert(sends_view(out@) =~= cur.sends + sends_view(batch));
                        self.sent@ = self.sent@ + sends_view(batch);
                        assert(self.sent@ =~= sent0 + sends_view(out@));
                    }
                    if finished {
                        self.finished = true;
                    }
                    proof {
                        assert(queue.drop_first() == self@.game.events);
                        assert(PumpView {
                            deck: self@.game.deck,
                            players: data@,
                            confirmed: self@.confirmed,
                            sends: sends_view(out@),
                            finished: self@.finished,
                        } == dispatch_step(event, cur));
                        if finished {
                            assert(sends_view(batch).last() == SendView::Broadcast(ServerEvent::GameEnd));
                            assert(self.sent@.last() == sends_view(batch).last());
                        }
                    }
                },
                None => {
                    assert(pumped(queue, cur) == (cur, queue));
                    proof {
                        lemma_last_send(out@, target.0.sends);
                    }
                    return out;
                },
            }
        }
        proof {
            let q = self@.game.events;
            assert(pumped(q, PumpView {
                deck: self@.game.deck,
                players: data@,
                confirmed: self@.confirmed,
                sends: sends_view(out@),
                finished: self@.finished,
            }).1 == q);
            lemma_last_send(out@, target.0.sends);
        }
        out
    }

    /// Feeds a client message to the engine at time `now`, once the game is
    /// under way; does nothing after the end.
    pub fn on_client_event(&mut self, data: &GameData, from: PlayerId, event: ClientEvent, now: u64)
        ensures
            old(self)@.finished ==> final(self)@ == old(self)@,
            !old(self)@.finished ==> final(self)@.game == (GameView {
                state: after_message(
                    old(self)@.game.state,
                    event,
                    from,
                    old(self)@.confirmed,
                    data@.len() as usize,
                    now,
                ),
                ..old(self)@.game
            }) && final(self)@.finished == old(self)@.finished && final(self)@.sent == old(
                self,
            )@.sent && final(self)@.confirmed == (if event == ClientEvent::ConfirmNewRound
                && !old(self)@.confirmed.contains(from) {
                old(self)@.confirmed.push(from)
            } else {
                old(self)@.confirmed
            }),
    {
        if !self.finished {
            let count = data.player_count();
            handle_incoming_event(&mut self.game, count, event, from, &mut self.confirmed, now);
        }
    }

    /// A connection change during play: a player who disconnects leaves their
    /// seat, so that only the remaining players are waited for.
    pub fn on_connection(&mut self, data: &mut GameData, conn: Connection)
        requires
            old(data).wf(),
        ensures
            final(data).wf(),
            *final(self) == *old(self),
            conn matches Connection::Disconnect(id, _) ==> (if has_id(old(data)@, id) {
                exists|i: int|
                    0 <= i < old(data)@.len() && old(data)@[i].id == id && final(data)@ == old(
                        data,
                    )@.remove(i)
            } else {
                final(data)@ == old(data)@
            }),
            conn is Connect ==> final(data)@ == old(data)@,
    {
        if let Connection::Disconnect(id, _) = conn {
            data.remove_player(id);
        }
    }

    /// Moves the engine on by one step at time `now`; does nothing after the end.
    pub fn advance(&mut self, now: u64)
        ensures
            old(self)@.finished ==> final(self)@ == old(self)@,
            !old(self)@.finished ==> final(self)@.game.state == next_state(
                old(self)@.game.state,
                old(self)@.game.deck,
                now,
            ) && final(self)@.game.events == old(self)@.game.events + emitted(
                old(self)@.game.state,
                old(self)@.game.deck,
            ) && deck_after(old(self)@.game.state, old(self)@.game.deck, final(self)@.game.deck)
                && final(self)@.confirmed == old(self)@.confirmed && final(self)@.finished == old(
                self,
            )@.finished && final(self)@.sent == old(self)@.sent,
    {
        if !self.finished {
            self.game.advance(now);
        }
    }

    /// Shuts the session down: the server announces it is closing, then closes
    /// every connection. When the game had finished, the end of the game was
    /// the last thing announced before.
    pub fn close(&mut self) -> (r: Vec<Outgoing>)
        requires
            old(self).wf(),
        ensures
            r@ == seq![Outgoing::Broadcast(ServerEvent::ServerClosing), Outgoing::CloseAll],
            final(self)@.sent == old(self)@.sent + sends_view(r@),
            old(self)@.finished ==> {
                let n = final(self)@.sent.len();
                &&& final(self)@.sent[n - 3] == SendView::Broadcast(ServerEvent::GameEnd)
                &&& final(self)@.sent[n - 2] == SendView::Broadcast(ServerEvent::ServerClosing)
            },
    {
        let mut r: Vec<Outgoing> = Vec::new();
        r.push(Outgoing::Broadcast(ServerEvent::ServerClosing));
        r.push(Outgoing::CloseAll);
        proof {
            self.sent@ = self.sent@ + sends_view(r@);
        }
        r
    }
}

} // verus!
