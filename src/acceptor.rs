//! Admitting connections: the id handshake, and what a departure sets off.

use crate::data::{has_id, GameData, PlayerData, PlayerId, PlayerView};
use crate::driver::Outgoing;
use crate::event::client::{Event as ClientEvent, Join};
use crate::event::server::Event as ServerEvent;
use crate::hub::{Connection, Registry};
use crate::worker::CloseReason;
use vstd::prelude::*;

verus! {

/// The players after seating a new player with id `fresh`, unless that id is
/// seated already.
pub open spec fn seated_with(players: Seq<PlayerView>, fresh: PlayerId) -> Seq<PlayerView> {
    if has_id(players, fresh) {
        players
    } else {
        players.push(PlayerView { id: fresh, hand: Seq::empty() })
    }
}

/// The id a join request ends up with, given a freshly drawn id.
pub open spec fn joined_id(players: Seq<PlayerView>, join: Join, fresh: PlayerId) -> PlayerId {
    match join {
        Join::Existing(id) => if has_id(players, id) {
            id
        } else {
            fresh
        },
        Join::New => fresh,
    }
}

/// The players after a join request, given a freshly drawn id.
pub open spec fn after_join(players: Seq<PlayerView>, join: Join, fresh: PlayerId) -> Seq<PlayerView> {
    match join {
        Join::Existing(id) => if has_id(players, id) {
            players
        } else {
            seated_with(players, fresh)
        },
        Join::New => seated_with(players, fresh),
    }
}

/// A join request naming an id that is not seated is answered with the freshly
/// drawn id, and that id is seated afterwards.
pub proof fn lemma_unknown_id_gets_fresh(players: Seq<PlayerView>, id: PlayerId, fresh: PlayerId)
    requires
        !has_id(players, id),
    ensures
        joined_id(players, Join::Existing(id), fresh) == fresh,
        has_id(after_join(players, Join::Existing(id), fresh), fresh),
{
    let after = after_join(players, Join::Existing(id), fresh);
    if !has_id(players, fresh) {
        assert(after[players.len() as int].id == fresh);
    }
}

/// Resolves a join request with `fresh` as the id for a newcomer: a seated
/// player rejoining keeps their id and seat; anyone else gets `fresh` and a
/// new seat.
pub fn retrieve_or_create_id_with(data: &mut GameData, join: Join, fresh: PlayerId) -> (r: PlayerId)
    requires
        old(data).wf(),
    ensures
        final(data).wf(),
        r == joined_id(old(data)@, join, fresh),
        final(data)@ == after_join(old(data)@, join, fresh),
{
    match join {
        Join::Existing(id) => {
            if data.has_player(id) {
                return id;
            }
        },
        Join::New => {},
    }
    let player = PlayerData::with_id(fresh);
    data.try_add_player(player);
    fresh
}

/// Resolves a join request, drawing a random id for a newcomer.
pub fn retrieve_or_create_id(data: &mut GameData, join: Join) -> (r: PlayerId)
    requires
        old(data).wf(),
    ensures
        final(data).wf(),
        exists|fresh: PlayerId|
            r == joined_id(old(data)@, join, fresh) && final(data)@ == after_join(
                old(data)@,
                join,
                fresh,
            ),
{
    let fresh = PlayerId::random();
    retrieve_or_create_id_with(data, join, fresh)
}

/// The handshake: a connection's first message must be a join request; its
/// answer is the id to assign. Anything else refuses the connection and
/// changes nothing.
pub fn id_handshake(data: &mut GameData, first: Option<ClientEvent>, fresh: PlayerId) -> (r: Option<
    PlayerId,
>)
    requires
        old(data).wf(),
    ensures
        final(data).wf(),
        first matches Some(ClientEvent::Join(join)) ==> r == Some(joined_id(old(data)@, join, fresh))
            && final(data)@ == after_join(old(data)@, join, fresh),
        !(first matches Some(ClientEvent::Join(_))) ==> r is None && final(data)@ == old(data)@,
{
    match first {
        Some(ClientEvent::Join(join)) => Some(retrieve_or_create_id_with(data, join, fresh)),
        _ => None,
    }
}

/// What becomes of a new connection.
#[derive(Debug, Clone, Copy, PartialEq, Eq, Structural)]
pub enum Admission {
    /// Not accepting connections: closed at once.
    Dropped,
    /// The handshake failed: closed by request.
    Refused,
    /// Admitted under this id, to be told with `AssignId`.
    Admitted(PlayerId),
}

/// Decides a new connection's fate from whether connections are accepted,
/// its first message, and a freshly drawn id. Only an admission changes
/// the players.
pub fn accept_connection(accepting: bool, data: &mut GameData, first: Option<ClientEvent>, fresh: PlayerId) -> (r:
    Admission)
    requires
        old(data).wf(),
    ensures
        final(data).wf(),
        !accepting ==> r == Admission::Dropped && final(data)@ == old(data)@,
        accepting && !(first matches Some(ClientEvent::Join(_))) ==> r == Admission::Refused
            && final(data)@ == old(data)@,
        accepting ==> (first matches Some(ClientEvent::Join(join)) ==> r == Admission::Admitted(
            joined_id(old(data)@, join, fresh),
        ) && final(data)@ == after_join(old(data)@, join, fresh)),
{
    if !accepting {
        return Admission::Dropped;
    }
    match id_handshake(data, first, fresh) {
        Some(id) => Admission::Admitted(id),
        None => Admission::Refused,
    }
}

/// The answer to an admitted connection's join request.
pub fn assign_id(id: PlayerId) -> (r: ServerEvent)
    ensures
        r == (ServerEvent::AssignId { id }),
{
    ServerEvent::AssignId { id }
}

/// A connection ended: its queue is forgotten, the others are told who left,
/// and subscribers learn of the disconnection.
pub fn on_disconnect(registry: &mut Registry, id: PlayerId, reason: CloseReason) -> (r: (
    Outgoing,
    Connection,
))
    requires
        old(registry).wf(),
    ensures
        final(registry).wf(),
        !final(registry)@.contains(id),
        !old(registry)@.contains(id) ==> final(registry)@ == old(registry)@,
        r.0 == Outgoing::Broadcast(ServerEvent::Left { id }),
        r.1 == Connection::Disconnect(id, reason),
{
    registry.remove(id);
    (Outgoing::Broadcast(ServerEvent::Left { id }), Connection::Disconnect(id, reason))
}

} // verus!
