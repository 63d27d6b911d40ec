//! Players, their hands, and the seated collection of players of one game.

use crate::cards::{card_value, Card, Deck, STARTING_DECK_LEN};
use vstd::prelude::*;

verus! {

/// The most cards a hand may hold.
pub const MAX_HAND_LEN: usize = 100_000_000;

/// A player's stable identity: the 128 bits of a UUID.
#[derive(Debug, Clone, Copy, PartialEq, Eq, Structural, Hash)]
pub struct PlayerId(pub u128);

/// Relies on uuid's `Uuid::new_v4` and `Uuid::as_u128`: a random version-4 UUID as
/// its 128 bits. Nothing is promised of the value.
#[verifier::external_body]
fn random_uuid_bits() -> (r: u128) {
    uuid::Uuid::new_v4().as_u128()
}

impl PlayerId {
    /// A new random id.
    pub fn random() -> (r: PlayerId) {
        PlayerId(random_uuid_bits())
    }
}

/// What a player is, mathematically: an id and a hand.
pub struct PlayerView {
    pub id: PlayerId,
    pub hand: Seq<Card>,
}

/// Sum of the game values of the cards.
pub open spec fn hand_score(hand: Seq<Card>) -> int
    decreases hand.len(),
{
    if hand.len() == 0 {
        0
    } else {
        hand_score(hand.drop_last()) + card_value(hand.last())
    }
}

/// No id occurs at two seats.
pub open spec fn unique_ids(players: Seq<PlayerView>) -> bool {
    forall|i: int, j: int|
        0 <= i < players.len() && 0 <= j < players.len() && i != j ==> #[trigger] players[i].id
            != #[trigger] players[j].id
}

/// Whether some seat holds the id.
pub open spec fn has_id(players: Seq<PlayerView>, id: PlayerId) -> bool {
    exists|i: int| 0 <= i < players.len() && #[trigger] players[i].id == id
}

/// One player: an id that never changes, and the cards in hand.
#[derive(Clone, Debug)]
pub struct PlayerData {
    id: PlayerId,
    cards: Vec<Card>,
}

impl View for PlayerData {
    type V = PlayerView;

    closed spec fn view(&self) -> PlayerView {
        PlayerView { id: self.id, hand: self.cards@ }
    }
}

impl PlayerData {
    /// A player with a new random id and an empty hand.
    pub fn new() -> (r: PlayerData)
        ensures
            r@.hand.len() == 0,
    {
        PlayerData::with_id(PlayerId::random())
    }

    /// A player with the given id and an empty hand.
    pub fn with_id(id: PlayerId) -> (r: PlayerData)
        ensures
            r@ == (PlayerView { id, hand: Seq::empty() }),
    {
        PlayerData { id, cards: Vec::with_capacity(STARTING_DECK_LEN) }
    }

    /// A player with the given id holding the given cards.
    pub fn with_cards(id: PlayerId, cards: Vec<Card>) -> (r: PlayerData)
        ensures
            r@ == (PlayerView { id, hand: cards@ }),
    {
        PlayerData { id, cards }
    }

    pub fn id(&self) -> (r: PlayerId)
        ensures
            r == self@.id,
    {
        self.id
    }

    /// Sum of the game values of the cards in hand.
    pub fn score(&self) -> (r: i32)
        requires
            self@.hand.len() <= MAX_HAND_LEN,
        ensures
            r as int == hand_score(self@.hand),
    {
        let mut sum: i32 = 0;
        let mut i: usize = 0;
        while i < self.cards.len()
            invariant
                i <= self.cards@.len() <= MAX_HAND_LEN,
                sum as int == hand_score(self.cards@.subrange(0, i as int)),
                -2 * i <= sum <= 13 * i,
            decreases self.cards@.len() - i,
        {
            let v = self.cards[i].game_value();
            assert(self.cards@.subrange(0, i as int + 1).drop_last() =~= self.cards@.subrange(
                0,
                i as int,
            ));
            sum = sum + v as i32;
            i = i + 1;
        }
        assert(self.cards@.subrange(0, i as int) =~= self.cards@);
        sum
    }

    pub fn cards(&self) -> (r: &[Card])
        ensures
            r@ == self@.hand,
    {
        self.cards.as_slice()
    }

    pub fn cards_mut(&mut self) -> (r: &mut [Card])
        ensures
            r@ == old(self)@.hand,
            final(self)@ == (PlayerView { id: old(self)@.id, hand: final(r)@ }),
    {
        self.cards.as_mut_slice()
    }
}

impl Default for PlayerData {
    fn default() -> (r: PlayerData)
        ensures
            r@.hand.len() == 0,
    {
        PlayerData::new()
    }
}

/// The players of one game, in seating order; seat 0 is the host.
pub struct GameData {
    players: Vec<PlayerData>,
}

impl View for GameData {
    type V = Seq<PlayerView>;

    closed spec fn view(&self) -> Seq<PlayerView> {
        self.players@.map_values(|p: PlayerData| p@)
    }
}

impl GameData {
    /// Well-formed: no player id appears twice, and no hand is so large that
    /// its score could leave an `i32`. `new` establishes it and every change keeps it.
    pub open spec fn wf(&self) -> bool {
        &&& unique_ids(self@)
        &&& forall|i: int| 0 <= i < self@.len() ==> (#[trigger] self@[i]).hand.len() <= MAX_HAND_LEN
    }

    /// A game with no players.
    pub fn new() -> (r: GameData)
        ensures
            r@ == Seq::<PlayerView>::empty(),
            r.wf(),
    {
        let r = GameData { players: Vec::new() };
        assert(r@ =~= Seq::<PlayerView>::empty());
        r
    }

    pub fn player_count(&self) -> (r: usize)
        ensures
            r == self@.len(),
    {
        self.players.len()
    }

    /// Whether a player with this id is seated.
    pub fn has_player(&self, id: PlayerId) -> (r: bool)
        ensures
            r == has_id(self@, id),
    {
        match self.position(id) {
            Some(_) => true,
            None => false,
        }
    }

    /// The seat of the player with this id.
    pub fn position(&self, id: PlayerId) -> (r: Option<usize>)
        ensures
            r is None ==> !has_id(self@, id),
            r matches Some(i) ==> i < self@.len() && self@[i as int].id == id,
    {
        let mut i: usize = 0;
        while i < self.players.len()
            invariant
                i <= self.players@.len(),
                self@.len() == self.players@.len(),
                forall|k: int| 0 <= k < i ==> #[trigger] self@[k].id != id,
            decreases self.players@.len() - i,
        {
            if self.players[i].id == id {
                return Some(i);
            }
            i = i + 1;
        }
        None
    }

    /// Seats the player last, unless one with the same id is seated already.
    pub fn try_add_player(&mut self, player: PlayerData) -> (r: bool)
        requires
            old(self).wf(),
            player@.hand.len() <= MAX_HAND_LEN,
        ensures
            r == !has_id(old(self)@, player@.id),
            r ==> final(self)@ == old(self)@.push(player@),
            !r ==> final(self)@ == old(self)@,
            final(self).wf(),
    {
        if self.has_player(player.id) {
            return false;
        }
        let ghost p = player@;
        self.players.push(player);
        assert(self@ =~= old(self)@.push(p));
        true
    }

    /// Removes the player with this id, if seated; later seats move up by one.
    pub fn remove_player(&mut self, id: PlayerId) -> (r: bool)
        requires
            old(self).wf(),
        ensures
            r == has_id(old(self)@, id),
            !r ==> final(self)@ == old(self)@,
            r ==> exists|i: int|
                0 <= i < old(self)@.len() && old(self)@[i].id == id && final(self)@ == old(
                    self,
                )@.remove(i),
            !has_id(final(self)@, id),
            final(self).wf(),
    {
        match self.position(id) {
            Some(index) => {
                self.players.remove(index);
                assert(self@ =~= old(self)@.remove(index as int));
                assert forall|k: int| 0 <= k < self@.len() implies #[trigger] self@[k].id != id by {
                    if k < index {
                        assert(self@[k] == old(self)@[k]);
                    } else {
                        assert(self@[k] == old(self)@[k + 1]);
                    }
                }
                true
            },
            None => false,
        }
    }

    pub fn players(&self) -> (r: &[PlayerData])
        ensures
            r@.len() == self@.len(),
            forall|i: int| 0 <= i < r@.len() ==> #[trigger] r@[i]@ == self@[i],
    {
        self.players.as_slice()
    }

    pub fn get_player(&self, i: usize) -> (r: &PlayerData)
        requires
            i < self@.len(),
        ensures
            r@ == self@[i as int],
    {
        &self.players[i]
    }

    /// Empties every hand; ids and seats stay.
    pub fn clear_hands(&mut self)
        ensures
            final(self)@.len() == old(self)@.len(),
            forall|i: int|
                0 <= i < final(self)@.len() ==> #[trigger] final(self)@[i] == (PlayerView {
                    id: old(self)@[i].id,
                    hand: Seq::empty(),
                }),
            old(self).wf() ==> final(self).wf(),
    {
        let mut i: usize = 0;
        while i < self.players.len()
            invariant
                i <= self.players@.len(),
                self.players@.len() == self@.len(),
                self@.len() == old(self)@.len(),
                forall|k: int|
                    0 <= k < self@.len() ==> #[trigger] self@[k].id == old(self)@[k].id,
                forall|k: int| 0 <= k < i ==> #[trigger] self@[k].hand == Seq::<Card>::empty(),
            decreases self.players@.len() - i,
        {
            let id = self.players[i].id;
            let ghost before = self@;
            assert(before[i as int].id == id);
            self.players.set(i, PlayerData::with_id(id));
            assert(self@ =~= before.update(i as int, PlayerView { id, hand: Seq::empty() }));
            i = i + 1;
        }
        assert forall|k: int| 0 <= k < self@.len() implies #[trigger] self@[k] == (PlayerView {
            id: old(self)@[k].id,
            hand: Seq::empty(),
        }) by {
            assert(self@[k].id == old(self)@[k].id);
            assert(self@[k].hand == Seq::<Card>::empty());
        }
    }

    /// Adds the cards to the end of the hand at a seat.
    fn extend_hand(&mut self, seat: usize, cards: &Vec<Card>)
        requires
            seat < old(self)@.len(),
        ensures
            old(self).wf() && old(self)@[seat as int].hand.len() + cards@.len() <= MAX_HAND_LEN
                ==> final(self).wf(),
            final(self)@ == old(self)@.update(
                seat as int,
                PlayerView { id: old(self)@[seat as int].id, hand: old(self)@[seat as int].hand + cards@ },
            ),
    {
        let id = self.players[seat].id;
        let mut hand: Vec<Card> = Vec::new();
        let mut j: usize = 0;
        while j < self.players[seat].cards.len()
            invariant
                seat < self.players@.len(),
                self@ == old(self)@,
                j <= self.players@[seat as int].cards@.len(),
                hand@ == self.players@[seat as int].cards@.subrange(0, j as int),
            decreases self.players@[seat as int].cards@.len() - j,
        {
            hand.push(self.players[seat].cards[j]);
            j = j + 1;
        }
        assert(hand@ =~= old(self)@[seat as int].hand);
        let mut i: usize = 0;
        while i < cards.len()
            invariant
                i <= cards@.len(),
                hand@ == old(self)@[seat as int].hand + cards@.subrange(0, i as int),
            decreases cards@.len() - i,
        {
            hand.push(cards[i]);
            assert(cards@.subrange(0, i as int + 1) =~= cards@.subrange(0, i as int).push(cards@[i as int]));
            i = i + 1;
        }
        let p = PlayerData { id, cards: hand };
        assert(cards@.subrange(0, i as int) =~= cards@);
        self.players.set(seat, p);
        assert(self@ =~= old(self)@.update(
            seat as int,
            PlayerView { id: old(self)@[seat as int].id, hand: old(self)@[seat as int].hand + cards@ },
        ));
    }
}

impl Default for GameData {
    fn default() -> (r: GameData)
        ensures
            r@ == Seq::<PlayerView>::empty(),
            r.wf(),
    {
        GameData::new()
    }
}

/// The four cards dealt from the top of a deck, in the order they are drawn.
pub open spec fn top_four(deck: Seq<Card>) -> Seq<Card> {
    let n = deck.len();
    seq![deck[n - 1], deck[n - 2], deck[n - 3], deck[n - 4]]
}

/// Deals four cards from the top of the deck into the hand at a seat.
pub fn take_starting_cards(deck: &mut Deck, data: &mut GameData, player: usize)
    requires
        old(deck)@.len() >= STARTING_DECK_LEN,
        player < old(data)@.len(),
    ensures
        final(deck)@ == old(deck)@.subrange(0, old(deck)@.len() - STARTING_DECK_LEN),
        final(data)@ == old(data)@.update(
            player as int,
            PlayerView {
                id: old(data)@[player as int].id,
                hand: old(data)@[player as int].hand + top_four(old(deck)@),
            },
        ),
        old(data).wf() && old(data)@[player as int].hand.len() + STARTING_DECK_LEN <= MAX_HAND_LEN
            ==> final(data).wf(),
{
    let ghost d = deck@;
    let mut dealt: Vec<Card> = Vec::with_capacity(STARTING_DECK_LEN);
    let mut k: usize = 0;
    while k < STARTING_DECK_LEN
        invariant
            k <= STARTING_DECK_LEN,
            d.len() >= STARTING_DECK_LEN,
            deck@ == d.subrange(0, d.len() - k),
            dealt@.len() == k,
            forall|j: int| 0 <= j < k ==> #[trigger] dealt@[j] == d[d.len() - 1 - j],
        decreases STARTING_DECK_LEN - k,
    {
        let c = deck.draw();
        match c {
            Some(card) => {
                dealt.push(card);
            },
            None => {},
        }
        assert(deck@ =~= d.subrange(0, d.len() - (k + 1)));
        k = k + 1;
    }
    assert(dealt@ =~= top_four(d));
    data.extend_hand(player, &dealt);
}

} // verus!
