//! The decisions a player may take with a drawn card, and sets of them.

use crate::cards::{Card, Face};
use vstd::prelude::*;

verus! {

/// What a player does with the card they drew.
#[derive(Debug, Clone, Copy, PartialEq, Eq, Structural, Hash)]
pub enum Decision {
    /// Place the card into the discard pile.
    Discard,
    /// Replace the card in hand with one in the deck, discarding it.
    Replace,
    /// Discard the card and look at one of your own cards.
    LookAtOwn,
    /// Discard the card and any card other than your own.
    LookAtOther,
    /// Choose a card of your own and someone elses to swap, without looking.
    BlindSwap,
    /// Look at one of your own cards, and one of someone elses, then choose whether to swap them.
    LookAndSwap,
}

/// Position of a decision in declaration order, from 0 to 5.
pub open spec fn decision_index(d: Decision) -> u64 {
    match d {
        Decision::Discard => 0,
        Decision::Replace => 1,
        Decision::LookAtOwn => 2,
        Decision::LookAtOther => 3,
        Decision::BlindSwap => 4,
        Decision::LookAndSwap => 5,
    }
}

/// The bit that stands for a decision in a set.
pub open spec fn decision_bit(d: Decision) -> u64 {
    1u64 << decision_index(d)
}

/// Whether the bits of a set hold a decision.
pub open spec fn bits_hold(bits: u64, d: Decision) -> bool {
    bits & decision_bit(d) == decision_bit(d)
}

/// The decisions each card allows: every card allows discarding and replacing;
/// sevens and eights add looking at your own card, nines and tens looking at
/// another's, jacks and queens a blind swap, and kings looking and swapping.
pub open spec fn allowed_decisions(card: Card) -> Set<Decision> {
    let base = set![Decision::Discard, Decision::Replace];
    match card {
        Card::Normal { face, .. } => match face {
            Face::King => base.insert(Decision::LookAndSwap),
            Face::Jack | Face::Queen => base.insert(Decision::BlindSwap),
            Face::Nine | Face::Ten => base.insert(Decision::LookAtOther),
            Face::Seven | Face::Eight => base.insert(Decision::LookAtOwn),
            _ => base,
        },
        Card::Joker => base,
    }
}

proof fn lemma_or_bit(x: u64, k: u64, j: u64)
    requires
        k < 6,
        j < 6,
    ensures
        ((x | (1u64 << k)) & (1u64 << j)) == (1u64 << j) <==> ((x & (1u64 << j)) == (1u64 << j)
            || k == j),
{
    assert(((x | (1u64 << k)) & (1u64 << j)) == (1u64 << j) <==> ((x & (1u64 << j)) == (1u64
        << j) || k == j)) by (bit_vector)
        requires
            k < 6,
            j < 6,
    ;
}

proof fn lemma_empty_bits(j: u64)
    requires
        j < 6,
    ensures
        (0u64 & (1u64 << j)) != (1u64 << j),
{
    assert((0u64 & (1u64 << j)) != (1u64 << j)) by (bit_vector)
        requires
            j < 6,
    ;
}

/// A set built from a list holds a decision exactly when the list does.
pub proof fn lemma_from_array_membership(xs: Seq<Decision>, x: Decision)
    ensures
        xs.to_set().contains(x) <==> xs.contains(x),
{
}

/// A set of decisions, one bit per decision.
#[derive(Debug, Clone, Copy)]
pub struct DecisionSet(u64);

impl View for DecisionSet {
    type V = Set<Decision>;

    closed spec fn view(&self) -> Set<Decision> {
        Set::new(|d: Decision| bits_hold(self.0, d))
    }
}

impl Decision {
    /// Whether this decision belongs to the given set.
    pub fn is_valid(&self, valid_decisions: DecisionSet) -> (r: bool)
        ensures
            r == valid_decisions@.contains(*self),
    {
        valid_decisions.contains(self)
    }

    fn discriminant(&self) -> (r: u64)
        ensures
            r == decision_index(*self),
    {
        match self {
            Decision::Discard => 0,
            Decision::Replace => 1,
            Decision::LookAtOwn => 2,
            Decision::LookAtOther => 3,
            Decision::BlindSwap => 4,
            Decision::LookAndSwap => 5,
        }
    }

    fn from_index(i: u64) -> (r: Decision)
        requires
            i < 6,
        ensures
            decision_index(r) == i,
    {
        if i == 0 {
            Decision::Discard
        } else if i == 1 {
            Decision::Replace
        } else if i == 2 {
            Decision::LookAtOwn
        } else if i == 3 {
            Decision::LookAtOther
        } else if i == 4 {
            Decision::BlindSwap
        } else {
            Decision::LookAndSwap
        }
    }
}

/// The set of decisions allowed with a card.
pub fn valid_set(card: Card) -> (r: DecisionSet)
    ensures
        r@ == allowed_decisions(card),
{
    let base = DecisionSet::new().and(Decision::Discard).and(Decision::Replace);
    let r = match card {
        Card::Normal { face, .. } => match face {
            Face::King => base.and(Decision::LookAndSwap),
            Face::Jack | Face::Queen => base.and(Decision::BlindSwap),
            Face::Nine | Face::Ten => base.and(Decision::LookAtOther),
            Face::Seven | Face::Eight => base.and(Decision::LookAtOwn),
            _ => base,
        },
        Card::Joker => base,
    };
    assert(r@ =~= allowed_decisions(card));
    r
}

impl DecisionSet {
    /// The empty set.
    pub fn new() -> (r: DecisionSet)
        ensures
            r@ == Set::<Decision>::empty(),
    {
        let r = DecisionSet(0u64);
        assert forall|d: Decision| !r@.contains(d) by {
            lemma_empty_bits(decision_index(d));
        }
        assert(r@ =~= Set::<Decision>::empty());
        r
    }

    /// The set holding one decision.
    pub fn only(decision: Decision) -> (r: DecisionSet)
        ensures
            r@ == set![decision],
    {
        let r = DecisionSet::new().and(decision);
        assert(r@ =~= set![decision]);
        r
    }

    /// The decisions of the set, in declaration order.
    pub fn into_vec(self) -> (r: Vec<Decision>)
        ensures
            forall|d: Decision| r@.contains(d) <==> self@.contains(d),
            forall|a: int, b: int|
                0 <= a < b < r@.len() ==> decision_index(#[trigger] r@[a]) < decision_index(
                    #[trigger] r@[b],
                ),
    {
        let mut r: Vec<Decision> = Vec::new();
        let mut i: u64 = 0;
        while i < 6
            invariant
                i <= 6,
                forall|k: int| 0 <= k < r@.len() ==> decision_index(#[trigger] r@[k]) < i,
                forall|d: Decision|
                    r@.contains(d) <==> (self@.contains(d) && decision_index(d) < i),
                forall|a: int, b: int|
                    0 <= a < b < r@.len() ==> decision_index(#[trigger] r@[a]) < decision_index(
                        #[trigger] r@[b],
                    ),
            decreases 6 - i,
        {
            let d = Decision::from_index(i);
            if self.contains(&d) {
                let ghost before = r@;
                r.push(d);
                assert(r@ == before.push(d));
                assert forall|e: Decision|
                    r@.contains(e) <==> (self@.contains(e) && decision_index(e) < i + 1) by {
                    if r@.contains(e) {
                        let k = choose|k: int| 0 <= k < r@.len() && r@[k] == e;
                        if k < before.len() {
                            assert(before[k] == e);
                            assert(before.contains(e));
                        }
                    }
                    if self@.contains(e) && decision_index(e) < i + 1 {
                        if decision_index(e) < i {
                            assert(before.contains(e));
                            let k = choose|k: int| 0 <= k < before.len() && before[k] == e;
                            assert(r@[k] == e);
                        } else {
                            assert(r@[r@.len() - 1] == e);
                        }
                    }
                }
            } else {
                assert forall|e: Decision|
                    r@.contains(e) <==> (self@.contains(e) && decision_index(e) < i + 1) by {
                    if r@.contains(e) {
                        let k = choose|k: int| 0 <= k < r@.len() && r@[k] == e;
                        assert(decision_index(r@[k]) < i);
                    }
                }
            }
            i = i + 1;
        }
        r
    }

    /// The set holding exactly the decisions of the array.
    pub fn from_array<const N: usize>(decisions: [Decision; N]) -> (r: DecisionSet)
        ensures
            r@ == decisions@.to_set(),
    {
        let mut this = DecisionSet::new();
        let mut i: usize = 0;
        while i < N
            invariant
                i <= N,
                N == decisions@.len(),
                forall|d: Decision|
                    this@.contains(d) <==> exists|j: int| 0 <= j < i && decisions@[j] == d,
            decreases N - i,
        {
            let d = decisions[i];
            let next = this.and(d);
            assert forall|e: Decision|
                next@.contains(e) <==> exists|j: int| 0 <= j < i + 1 && decisions@[j] == e by {
                if next@.contains(e) && e != d {
                    assert(this@.contains(e));
                }
                if exists|j: int| 0 <= j < i + 1 && decisions@[j] == e {
                    let j = choose|j: int| 0 <= j < i + 1 && decisions@[j] == e;
                    if j < i {
                        assert(this@.contains(e));
                    }
                }
            }
            this = next;
            i = i + 1;
        }
        assert forall|d: Decision| this@.contains(d) <==> decisions@.to_set().contains(d) by {
            if decisions@.to_set().contains(d) {
                assert(decisions@.contains(d));
            }
        }
        assert(this@ =~= decisions@.to_set());
        this
    }

    /// Whether the set holds the decision.
    pub fn contains(&self, decision: &Decision) -> (r: bool)
        ensures
            r == self@.contains(*decision),
    {
        let bit = Self::to_bit(*decision);
        bit == self.0 & bit
    }

    /// The set with one more decision.
    pub fn and(self, decision: Decision) -> (r: DecisionSet)
        ensures
            r@ == self@.insert(decision),
    {
        let r = DecisionSet(self.0 | Self::to_bit(decision));
        assert forall|d: Decision| r@.contains(d) <==> self@.insert(decision).contains(d) by {
            lemma_or_bit(self.0, decision_index(decision), decision_index(d));
            if decision_index(decision) == decision_index(d) {
                assert(decision == d);
            }
        }
        assert(r@ =~= self@.insert(decision));
        r
    }

    fn to_bit(decision: Decision) -> (r: u64)
        ensures
            r == decision_bit(decision),
    {
        let i = decision.discriminant();
        1u64 << i
    }
}

impl Default for DecisionSet {
    fn default() -> (r: DecisionSet)
        ensures
            r@ == Set::<Decision>::empty(),
    {
        DecisionSet::new()
    }
}

} // verus!
