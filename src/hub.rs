//! The registry of live outbound queues, and who receives each send.
//!
//! The queues themselves live with the caller; the registry decides, for each
//! kind of send, which players a message goes to.

use crate::data::PlayerId;
use crate::worker::CloseReason;
use vstd::prelude::*;

verus! {

/// A connection or disconnection, as published to subscribers.
#[derive(Debug, Clone, Copy, PartialEq, Eq, Structural)]
pub enum Connection {
    Disconnect(PlayerId, CloseReason),
    Connect(PlayerId),
}

/// The receivers of a send.
#[derive(Debug, Clone)]
pub enum Target {
    /// Every live player gets the same message.
    All,
    /// Only this player, if live.
    One(PlayerId),
    /// Each live player listed gets the message at the position of its first entry.
    Each(Vec<PlayerId>),
}

/// Position of the first entry of `id` in `keys`.
#[verifier::opaque]
pub open spec fn first_key(keys: Seq<PlayerId>, id: PlayerId) -> int {
    choose|j: int| 0 <= j < keys.len() && keys[j] == id && forall|k: int| 0 <= k < j ==> keys[k] != id
}

/// Deliveries of a broadcast: every live player once, in registry order.
pub open spec fn all_plan(ids: Seq<PlayerId>) -> Seq<(PlayerId, usize)> {
    ids.map_values(|id: PlayerId| (id, 0usize))
}

/// Deliveries of a unicast: the player, if live.
pub open spec fn one_plan(ids: Seq<PlayerId>, id: PlayerId) -> Seq<(PlayerId, usize)> {
    if ids.contains(id) {
        seq![(id, 0usize)]
    } else {
        seq![]
    }
}

/// Deliveries of a per-player send: each live player that has an entry, in
/// registry order, with the position of its entry.
pub open spec fn each_plan(ids: Seq<PlayerId>, keys: Seq<PlayerId>) -> Seq<(PlayerId, usize)>
    decreases ids.len(),
{
    if ids.len() == 0 {
        seq![]
    } else {
        let rest = each_plan(ids.drop_last(), keys);
        let id = ids.last();
        if keys.contains(id) {
            rest.push((id, first_key(keys, id) as usize))
        } else {
            rest
        }
    }
}

proof fn lemma_first_key(keys: Seq<PlayerId>, id: PlayerId, j: int)
    requires
        0 <= j < keys.len(),
        keys[j] == id,
        forall|k: int| 0 <= k < j ==> keys[k] != id,
    ensures
        first_key(keys, id) == j,
{
    reveal(first_key);
    let f = first_key(keys, id);
    assert(0 <= f < keys.len() && keys[f] == id && forall|k: int| 0 <= k < f ==> keys[k] != id);
    if f < j {
        assert(keys[f] != id);
    }
    if j < f {
        assert(keys[j] != id);
    }
}

/// A broadcast reaches every live player, each exactly once.
pub proof fn lemma_broadcast_reaches_all(ids: Seq<PlayerId>)
    requires
        ids.no_duplicates(),
    ensures
        all_plan(ids).len() == ids.len(),
        forall|k: int| 0 <= k < ids.len() ==> (#[trigger] all_plan(ids)[k]).0 == ids[k],
        forall|id: PlayerId|
            ids.contains(id) ==> exists|k: int|
                0 <= k < all_plan(ids).len() && (#[trigger] all_plan(ids)[k]).0 == id,
        forall|a: int, b: int|
            0 <= a < b < all_plan(ids).len() ==> (#[trigger] all_plan(ids)[a]).0 != (
            #[trigger] all_plan(ids)[b]).0,
{
    assert forall|id: PlayerId| ids.contains(id) implies exists|k: int|
        0 <= k < all_plan(ids).len() && (#[trigger] all_plan(ids)[k]).0 == id by {
        let k = choose|k: int| 0 <= k < ids.len() && ids[k] == id;
        assert(all_plan(ids)[k].0 == id);
    }
}

/// A message meant for one player never reaches another: a unicast goes to its
/// addressee alone, and in a per-player send each player receives the entry
/// that was made for them.
pub proof fn lemma_private_delivery(ids: Seq<PlayerId>, keys: Seq<PlayerId>, owner: PlayerId)
    requires
        keys.len() <= usize::MAX,
    ensures
        forall|k: int| 0 <= k < one_plan(ids, owner).len() ==> #[trigger] one_plan(ids, owner)[k].0 == owner,
        forall|k: int|
            0 <= k < each_plan(ids, keys).len() ==> (#[trigger] each_plan(ids, keys)[k]).1 < keys.len()
                && keys[each_plan(ids, keys)[k].1 as int] == each_plan(ids, keys)[k].0,
{
    lemma_each_plan_keys(ids, keys);
}

proof fn lemma_each_plan_keys(ids: Seq<PlayerId>, keys: Seq<PlayerId>)
    requires
        keys.len() <= usize::MAX,
    ensures
        forall|k: int|
            0 <= k < each_plan(ids, keys).len() ==> (#[trigger] each_plan(ids, keys)[k]).1 < keys.len()
                && keys[each_plan(ids, keys)[k].1 as int] == each_plan(ids, keys)[k].0,
    decreases ids.len(),
{
    if ids.len() > 0 {
        let rest = each_plan(ids.drop_last(), keys);
        lemma_each_plan_keys(ids.drop_last(), keys);
        let id = ids.last();
        if keys.contains(id) {
            let j = choose|j: int| 0 <= j < keys.len() && keys[j] == id;
            lemma_first_index_exists(keys, id, j);
            let plan = each_plan(ids, keys);
            assert(plan == rest.push((id, first_key(keys, id) as usize)));
            assert forall|k: int| 0 <= k < plan.len() implies (#[trigger] plan[k]).1 < keys.len()
                && keys[plan[k].1 as int] == plan[k].0 by {
                if k < rest.len() {
                    assert(plan[k] == rest[k]);
                }
            }
        }
    }
}

proof fn lemma_first_index_exists(keys: Seq<PlayerId>, id: PlayerId, j: int)
    requires
        0 <= j < keys.len(),
        keys[j] == id,
    ensures
        0 <= first_key(keys, id) < keys.len(),
        keys[first_key(keys, id)] == id,
    decreases j,
{
    if exists|k: int| 0 <= k < j && keys[k] == id {
        let k = choose|k: int| 0 <= k < j && keys[k] == id;
        lemma_first_index_exists(keys, id, k);
    } else {
        lemma_first_key(keys, id, j);
    }
}

/// The ids of the live outbound queues, in the order they registered.
pub struct Registry {
    ids: Vec<PlayerId>,
}

impl View for Registry {
    type V = Seq<PlayerId>;

    closed spec fn view(&self) -> Seq<PlayerId> {
        self.ids@
    }
}

impl Registry {
    /// Well-formed: each id registered once.
    pub open spec fn wf(&self) -> bool {
        self@.no_duplicates()
    }

    pub fn new() -> (r: Registry)
        ensures
            r@ == Seq::<PlayerId>::empty(),
            r.wf(),
    {
        Registry { ids: Vec::new() }
    }

    fn find(&self, id: PlayerId) -> (r: Option<usize>)
        ensures
            r is None ==> !self@.contains(id),
            r matches Some(i) ==> i < self@.len() && self@[i as int] == id,
    {
        let mut i: usize = 0;
        while i < self.ids.len()
            invariant
                i <= self.ids@.len(),
                forall|k: int| 0 <= k < i ==> self.ids@[k] != id,
            decreases self.ids@.len() - i,
        {
            if self.ids[i] == id {
                return Some(i);
            }
            i = i + 1;
        }
        None
    }

    /// Whether a queue is registered for the player.
    pub fn contains(&self, id: PlayerId) -> (r: bool)
        ensures
            r == self@.contains(id),
    {
        match self.find(id) {
            Some(_) => true,
            None => false,
        }
    }

    /// Registers a player's queue; registering again keeps the player's place.
    pub fn register(&mut self, id: PlayerId)
        requires
            old(self).wf(),
        ensures
            final(self).wf(),
            final(self)@ == (if old(self)@.contains(id) {
                old(self)@
            } else {
                old(self)@.push(id)
            }),
    {
        if !self.contains(id) {
            self.ids.push(id);
            proof {
                assert forall|a: int, b: int|
                    0 <= a < b < self@.len() implies self@[a] != self@[b] by {
                    if b == self@.len() - 1 {
                        assert(old(self)@.contains(old(self)@[a]));
                    }
                }
            }
        }
    }

    /// Forgets a player's queue.
    pub fn remove(&mut self, id: PlayerId)
        requires
            old(self).wf(),
        ensures
            final(self).wf(),
            !final(self)@.contains(id),
            !old(self)@.contains(id) ==> final(self)@ == old(self)@,
            old(self)@.contains(id) ==> exists|i: int|
                0 <= i < old(self)@.len() && old(self)@[i] == id && final(self)@ == old(self)@.remove(i),
    {
        match self.find(id) {
            Some(i) => {
                self.ids.remove(i);
                proof {
                    assert(self@ =~= old(self)@.remove(i as int));
                    assert forall|a: int, b: int|
                        0 <= a < b < self@.len() implies self@[a] != self@[b] by {
                        let a0 = if a < i { a } else { a + 1 };
                        let b0 = if b < i { b } else { b + 1 };
                        assert(self@[a] == old(self)@[a0]);
                        assert(self@[b] == old(self)@[b0]);
                    }
                    if self@.contains(id) {
                        let k = choose|k: int| 0 <= k < self@.len() && self@[k] == id;
                        let k0 = if k < i { k } else { k + 1 };
                        assert(old(self)@[k0] == id);
                    }
                }
            },
            None => {},
        }
    }

    /// Number of live queues.
    pub fn len(&self) -> (r: usize)
        ensures
            r == self@.len(),
    {
        self.ids.len()
    }

    /// Who receives a send, each with the position of their message in the
    /// send's list (0 when all share one message).
    pub fn recipients(&self, target: &Target) -> (r: Vec<(PlayerId, usize)>)
        ensures
            target is All ==> r@ == all_plan(self@),
            target matches Target::One(id) ==> r@ == one_plan(self@, *id),
            target matches Target::Each(keys) ==> r@ == each_plan(self@, keys@),
    {
        match target {
            Target::All => {
                let mut r: Vec<(PlayerId, usize)> = Vec::new();
                let mut i: usize = 0;
                while i < self.ids.len()
                    invariant
                        i <= self.ids@.len(),
                        r@ == all_plan(self.ids@.subrange(0, i as int)),
                    decreases self.ids@.len() - i,
                {
                    r.push((self.ids[i], 0));
                    assert(all_plan(self.ids@.subrange(0, i as int + 1)) =~= all_plan(
                        self.ids@.subrange(0, i as int),
                    ).push((self.ids@[i as int], 0usize)));
                    i = i + 1;
                }
                assert(self.ids@.subrange(0, i as int) =~= self.ids@);
                r
            },
            Target::One(id) => {
                let mut r: Vec<(PlayerId, usize)> = Vec::new();
                if self.contains(*id) {
                    r.push((*id, 0));
                }
                assert(r@ =~= one_plan(self@, *id));
                r
            },
            Target::Each(keys) => {
                let mut r: Vec<(PlayerId, usize)> = Vec::new();
                let mut i: usize = 0;
                while i < self.ids.len()
                    invariant
                        i <= self.ids@.len(),
                        r@ == each_plan(self.ids@.subrange(0, i as int), keys@),
                    decreases self.ids@.len() - i,
                {
                    let id = self.ids[i];
                    let ghost pre = self.ids@.subrange(0, i as int + 1);
                    assert(pre.drop_last() =~= self.ids@.subrange(0, i as int));
                    match first_position(keys, id) {
                        Some(j) => {
                            proof {
                                lemma_first_key(keys@, id, j as int);
                            }
                            r.push((id, j));
                        },
                        None => {},
                    }
                    i = i + 1;
                }
                assert(self.ids@.subrange(0, i as int) =~= self.ids@);
                r
            },
        }
    }
}

fn first_position(keys: &Vec<PlayerId>, id: PlayerId) -> (r: Option<usize>)
    ensures
        r is None ==> !keys@.contains(id),
        r matches Some(j) ==> j < keys@.len() && keys@[j as int] == id && forall|k: int|
            0 <= k < j ==> keys@[k] != id,
{
    let mut j: usize = 0;
    while j < keys.len()
        invariant
            j <= keys@.len(),
            forall|k: int| 0 <= k < j ==> keys@[k] != id,
        decreases keys@.len() - j,
    {
        if keys[j] == id {
            return Some(j);
        }
        j = j + 1;
    }
    None
}

impl Default for Registry {
    fn default() -> (r: Registry)
        ensures
            r@ == Seq::<PlayerId>::empty(),
    {
        Registry::new()
    }
}

} // verus!
