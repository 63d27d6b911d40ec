//! Choosing the winner of a round: the one player with the lowest score, if
//! there is exactly one.

use crate::data::{hand_score, GameData, PlayerView};
use crate::event::server::Winner;
use itertools::Itertools;
use vstd::prelude::*;

verus! {

/// Seat `i` scores strictly less than every other seat.
pub open spec fn sole_lowest(scores: Seq<int>, i: int) -> bool {
    &&& 0 <= i < scores.len()
    &&& forall|j: int| 0 <= j < scores.len() && j != i ==> scores[i] < #[trigger] scores[j]
}

pub open spec fn player_scores(players: Seq<PlayerView>) -> Seq<int> {
    players.map_values(|p: PlayerView| hand_score(p.hand))
}

/// The round's result: the player who alone has the lowest score, else a tie.
pub open spec fn winner_of(players: Seq<PlayerView>) -> Winner {
    let scores = player_scores(players);
    if exists|i: int| sole_lowest(scores, i) {
        Winner::Player { uuid: players[choose|i: int| sole_lowest(scores, i)].id }
    } else {
        Winner::Tied
    }
}

/// Some group has the score as its key and holds the seat.
pub open spec fn grouped(groups: Seq<(i32, Vec<usize>)>, score: i32, seat: int) -> bool {
    exists|g: int|
        0 <= g < groups.len() && (#[trigger] groups[g]).0 == score && groups[g].1@.contains(
            seat as usize,
        )
}

/// Relies on itertools' `Itertools::into_group_map_by` over the enumerated
/// scores: one group per distinct score, holding the seats with that score in
/// increasing order.
#[verifier::external_body]
fn group_seats_by_score(scores: &Vec<i32>) -> (r: Vec<(i32, Vec<usize>)>)
    ensures
        forall|g: int, h: int| 0 <= g < h < r@.len() ==> (#[trigger] r@[g]).0 != (#[trigger] r@[h]).0,
        forall|g: int| 0 <= g < r@.len() ==> (#[trigger] r@[g]).1@.len() > 0,
        forall|g: int, k: int|
            0 <= g < r@.len() && 0 <= k < r@[g].1@.len() ==> (#[trigger] r@[g].1@[k]) < scores@.len()
                && scores@[r@[g].1@[k] as int] == r@[g].0,
        forall|g: int, k: int, m: int|
            0 <= g < r@.len() && 0 <= k < m < r@[g].1@.len() ==> #[trigger] r@[g].1@[k]
                < #[trigger] r@[g].1@[m],
        forall|i: int| 0 <= i < scores@.len() ==> #[trigger] grouped(r@, scores@[i], i),
{
    scores.iter().copied().enumerate().into_group_map_by(|entry| entry.1).into_iter().map(
        |(score, seats)| (score, seats.into_iter().map(|entry| entry.0).collect()),
    ).collect()
}

/// The winner of the round, from the players' scores.
pub fn find_winner(data: &GameData) -> (r: Winner)
    requires
        data.wf(),
    ensures
        r == winner_of(data@),
{
    let players = data.players();
    let mut scores: Vec<i32> = Vec::new();
    let mut i: usize = 0;
    while i < players.len()
        invariant
            i <= players@.len(),
            players@.len() == data@.len(),
            forall|k: int| 0 <= k < players@.len() ==> #[trigger] players@[k]@ == data@[k],
            data.wf(),
            scores@.len() == i,
            forall|k: int| 0 <= k < i ==> scores@[k] as int == player_scores(data@)[k],
        decreases players@.len() - i,
    {
        assert(players@[i as int]@ == data@[i as int]);
        let s = players[i].score();
        scores.push(s);
        i = i + 1;
    }
    let ghost sc = player_scores(data@);
    assert(sc.len() == scores@.len());
    let groups = group_seats_by_score(&scores);
    if groups.len() == 0 {
        proof {
            if exists|i: int| sole_lowest(sc, i) {
                let i = choose|i: int| sole_lowest(sc, i);
                assert(grouped(groups@, scores@[i], i));
                let g = choose|g: int|
                    0 <= g < groups@.len() && (#[trigger] groups@[g]).0 == scores@[i]
                        && groups@[g].1@.contains(i as usize);
            }
        }
        return Winner::Tied;
    }
    // the group with the lowest score
    let mut best: usize = 0;
    let mut g: usize = 1;
    while g < groups.len()
        invariant
            1 <= g <= groups@.len(),
            best < g,
            forall|h: int| 0 <= h < g ==> groups@[best as int].0 <= (#[trigger] groups@[h]).0,
        decreases groups@.len() - g,
    {
        if groups[g].0 < groups[best].0 {
            best = g;
        }
        g = g + 1;
    }
    let low = groups[best].0;
    let seats = &groups[best].1;
    proof {
        // every score is at least the lowest one
        assert forall|j: int| 0 <= j < sc.len() implies low <= #[trigger] sc[j] by {
            assert(grouped(groups@, scores@[j], j));
            let h = choose|h: int|
                0 <= h < groups@.len() && (#[trigger] groups@[h]).0 == scores@[j]
                    && groups@[h].1@.contains(j as usize);
        }
        // the seats scoring the lowest are exactly the group's seats
        assert forall|j: int| 0 <= j < sc.len() && sc[j] == low implies seats@.contains(
            j as usize,
        ) by {
            assert(grouped(groups@, scores@[j], j));
            let h = choose|h: int|
                0 <= h < groups@.len() && (#[trigger] groups@[h]).0 == scores@[j]
                    && groups@[h].1@.contains(j as usize);
            if h != best {
                assert(groups@[h].0 != groups@[best as int].0);
            }
        }
    }
    if seats.len() == 1 {
        let seat = seats[0];
        proof {
            assert(seats@[0] < scores@.len() && scores@[seats@[0] as int] == low);
            assert forall|j: int| 0 <= j < sc.len() && j != seat implies sc[seat as int]
                < #[trigger] sc[j] by {
                if sc[j] == low {
                    assert(seats@.contains(j as usize));
                    let k = choose|k: int| 0 <= k < seats@.len() && seats@[k] == j as usize;
                }
            }
            assert(sole_lowest(sc, seat as int));
            let c = choose|i: int| sole_lowest(sc, i);
            if c != seat {
                assert(sc[c] < sc[seat as int]);
                assert(sc[seat as int] < sc[c]);
            }
        }
        Winner::Player { uuid: players[seat].id() }
    } else {
        proof {
            let a = seats@[0] as int;
            let b = seats@[1] as int;
            assert(a < b);
            assert(sc[a] == low && sc[b] == low);
            if exists|i: int| sole_lowest(sc, i) {
                let i = choose|i: int| sole_lowest(sc, i);
                if i != a {
                    assert(sc[i] < sc[a]);
                } else {
                    assert(sc[i] < sc[b]);
                }
            }
        }
        Winner::Tied
    }
}

} // verus!
