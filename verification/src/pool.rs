//! The dice pool: an ordered multiset of dice, kept sorted by kind priority.

use vstd::prelude::*;
use vstd::relations::total_ordering;
use vstd::seq_lib::group_to_multiset_ensures;
use vstd::seq_lib::lemma_sorted_unique;
use vstd::relations::sorted_by;

use crate::dice::{die_rank, Die, DieRoll};

verus! {

/// The pool's sort order: ascending kind-priority rank.
pub open spec fn dice_sorted(s: Seq<Die>) -> bool {
    forall|i: int, j: int| 0 <= i < j < s.len() ==> die_rank(s[i]) <= die_rank(s[j])
}

/// Rank comparison is a total order over die kinds: each kind has its own
/// rank, so two kinds that compare equal are the same kind.
pub proof fn lemma_die_order_total()
    ensures
        total_ordering(|a: Die, b: Die| die_rank(a) <= die_rank(b)),
{
    assert forall|a: Die, b: Die| die_rank(a) == die_rank(b) implies a == b by {
        match a {
            Die::Ability => assert(b is Ability),
            Die::Proficiency => assert(b is Proficiency),
            Die::Difficulty => assert(b is Difficulty),
            Die::Challange => assert(b is Challange),
            Die::Boost => assert(b is Boost),
            Die::Setback => assert(b is Setback),
            Die::Force => assert(b is Force),
        }
    }
}

/// Two sorted pools holding the same multiset of dice are identical: the
/// displayed order never depends on the insertion sequence.
pub proof fn lemma_sorted_pool_unique(a: Seq<Die>, b: Seq<Die>)
    requires
        dice_sorted(a),
        dice_sorted(b),
        a.to_multiset() == b.to_multiset(),
    ensures
        a == b,
{
    let leq = |x: Die, y: Die| die_rank(x) <= die_rank(y);
    lemma_die_order_total();
    assert(sorted_by(a, leq));
    assert(sorted_by(b, leq));
    lemma_sorted_unique(a, b, leq);
    assert(a =~= b);
}

/// Adding a die and then removing the same die restores the pool's
/// multiset of dice, for any pool and any die. The hypotheses are exactly
/// what `Pool::add` and `Pool::remove` promise of the two calls.
pub proof fn lemma_add_then_remove(p0: Seq<Die>, p1: Seq<Die>, p2: Seq<Die>, d: Die)
    requires
        p1.to_multiset() == p0.to_multiset().insert(d),
        p1.contains(d) ==> p2.to_multiset() == p1.to_multiset().remove(d),
        !p1.contains(d) ==> p2 == p1,
    ensures
        p2.to_multiset() == p0.to_multiset(),
{
    broadcast use group_to_multiset_ensures;
    broadcast use vstd::multiset::group_multiset_axioms;

    assert(p1.to_multiset().count(d) > 0);
    assert(p1.contains(d));
    assert(p0.to_multiset().insert(d).remove(d) =~= p0.to_multiset());
}

/// Inserting a die at a position whose predecessors rank no higher and
/// whose successors rank strictly higher keeps the sequence sorted.
proof fn lemma_sorted_insert_at(s: Seq<Die>, i: int, d: Die)
    requires
        dice_sorted(s),
        0 <= i <= s.len(),
        forall|k: int| 0 <= k < i ==> die_rank(s[k]) <= die_rank(d),
        forall|k: int| i <= k < s.len() ==> die_rank(d) < die_rank(s[k]),
    ensures
        dice_sorted(s.insert(i, d)),
{
    let t = s.insert(i, d);
    assert forall|p: int, q: int| 0 <= p < q < t.len() implies die_rank(t[p]) <= die_rank(
        t[q],
    ) by {
        assert(t[p] == (if p < i {
            s[p]
        } else if p == i {
            d
        } else {
            s[p - 1]
        }));
        assert(t[q] == (if q < i {
            s[q]
        } else if q == i {
            d
        } else {
            s[q - 1]
        }));
    }
}

/// Removing any element of a sorted sequence keeps it sorted.
proof fn lemma_sorted_remove(s: Seq<Die>, i: int)
    requires
        dice_sorted(s),
        0 <= i < s.len(),
    ensures
        dice_sorted(s.remove(i)),
{
    let t = s.remove(i);
    assert forall|p: int, q: int| 0 <= p < q < t.len() implies die_rank(t[p]) <= die_rank(
        t[q],
    ) by {
        assert(t[p] == (if p < i {
            s[p]
        } else {
            s[p + 1]
        }));
        assert(t[q] == (if q < i {
            s[q]
        } else {
            s[q + 1]
        }));
    }
}

/// Inserts a die into a sorted vector, keeping it sorted: the first
/// position whose die ranks strictly higher is where the new die goes.
fn sorted_insert(v: &mut Vec<Die>, d: Die)
    requires
        dice_sorted(old(v)@),
    ensures
        dice_sorted(final(v)@),
        final(v)@.to_multiset() == old(v)@.to_multiset().insert(d),
        final(v)@.len() == old(v)@.len() + 1,
{
    broadcast use vstd::seq_lib::to_multiset_insert;

    let rd = d.rank();
    let mut i: usize = 0;
    while i < v.len() && v[i].rank() <= rd
        invariant
            i <= v@.len(),
            v@ == old(v)@,
            rd as int == die_rank(d),
            forall|k: int| 0 <= k < i ==> die_rank(v@[k]) <= die_rank(d),
        decreases v@.len() - i,
    {
        i += 1;
    }
    assert(i < v@.len() ==> die_rank(d) < die_rank(v@[i as int]));
    proof {
        lemma_sorted_insert_at(v@, i as int, d);
    }
    v.insert(i, d);
}

/// The user-assembled pool of dice awaiting a roll. The dice are always
/// kept sorted by the fixed kind-priority order.
#[derive(Debug, Clone, PartialEq, Eq)]
pub struct Pool {
    dice: Vec<Die>,
}

impl View for Pool {
    type V = Seq<Die>;

    closed spec fn view(&self) -> Seq<Die> {
        self.dice@
    }
}

impl Pool {
    /// A pool is well-formed when its dice are sorted by kind priority.
    /// Every constructor establishes this and every mutation preserves it.
    pub open spec fn well_formed(self) -> bool {
        dice_sorted(self@)
    }

    /// A pool holding the given dice, sorted into canonical order.
    pub fn new(dice: Vec<Die>) -> (r: Pool)
        ensures
            r.well_formed(),
            r@.to_multiset() == dice@.to_multiset(),
            r@.len() == dice@.len(),
    {
        broadcast use vstd::seq_lib::to_multiset_build;

        let mut v: Vec<Die> = Vec::new();
        assert(dice@.take(0) =~= Seq::<Die>::empty());
        assert(v@ =~= Seq::<Die>::empty());
        let mut i: usize = 0;
        while i < dice.len()
            invariant
                i <= dice@.len(),
                dice_sorted(v@),
                v@.len() == i,
                v@.to_multiset() == dice@.take(i as int).to_multiset(),
            decreases dice@.len() - i,
        {
            sorted_insert(&mut v, dice[i]);
            proof {
                let prev = dice@.take(i as int);
                assert(dice@.take(i + 1) =~= prev.push(dice@[i as int]));
                vstd::seq_lib::to_multiset_build(prev, dice@[i as int]);
            }
            i += 1;
        }
        assert(dice@.take(dice@.len() as int) =~= dice@);
        Pool { dice: v }
    }

    /// The empty pool.
    pub fn empty() -> (r: Pool)
        ensures
            r.well_formed(),
            r@ == Seq::<Die>::empty(),
    {
        Pool { dice: Vec::new() }
    }

    /// Appends a die, then restores the sort order. Duplicates are
    /// permitted and independent.
    pub fn add(&mut self, die: Die)
        requires
            old(self).well_formed(),
        ensures
            final(self).well_formed(),
            final(self)@.to_multiset() == old(self)@.to_multiset().insert(die),
            final(self)@.len() == old(self)@.len() + 1,
    {
        sorted_insert(&mut self.dice, die);
    }

    /// Removes the first occurrence of the given die; a no-op when the
    /// pool holds none. With sortedness, the multiset clauses pin the
    /// resulting sequence exactly.
    pub fn remove(&mut self, die: Die)
        requires
            old(self).well_formed(),
        ensures
            final(self).well_formed(),
            old(self)@.contains(die) ==> final(self)@.to_multiset() == old(
                self,
            )@.to_multiset().remove(die),
            !old(self)@.contains(die) ==> final(self)@ == old(self)@,
    {
        let mut i: usize = 0;
        while i < self.dice.len()
            invariant
                i <= self.dice@.len(),
                *self == *old(self),
                old(self).well_formed(),
                forall|k: int| 0 <= k < i ==> self.dice@[k] != die,
            decreases self.dice@.len() - i,
        {
            if self.dice[i] == die {
                proof {
                    assert(old(self)@[i as int] == die);
                    assert(old(self)@.contains(die));
                    lemma_sorted_remove(old(self)@, i as int);
                    vstd::seq_lib::to_multiset_remove(old(self)@, i as int);
                }
                self.dice.remove(i);
                assert(self.dice@ == old(self)@.remove(i as int));
                return ;
            }
            i += 1;
        }
        assert(forall|k: int| 0 <= k < old(self)@.len() ==> old(self)@[k] != die);
        assert(!old(self)@.contains(die));
    }

    /// Empties the pool.
    pub fn clear(&mut self)
        ensures
            final(self).well_formed(),
            final(self)@ == Seq::<Die>::empty(),
    {
        self.dice.clear();
    }

    /// Whether the pool holds no dice.
    pub fn is_empty(&self) -> (r: bool)
        ensures
            r <==> self@.len() == 0,
    {
        self.dice.is_empty()
    }

    /// The pool's dice in their current (canonical) order.
    pub fn iter(&self) -> (r: Vec<Die>)
        ensures
            r@ == self@,
    {
        let mut v: Vec<Die> = Vec::new();
        let mut i: usize = 0;
        while i < self.dice.len()
            invariant
                i <= self.dice@.len(),
                v@ =~= self.dice@.take(i as int),
            decreases self.dice@.len() - i,
        {
            v.push(self.dice[i]);
            assert(v@ =~= self.dice@.take(i + 1 as int));
            i += 1;
        }
        assert(v@ =~= self.dice@);
        v
    }

    /// Rolls the pool: one independent random draw per die, in pool order.
    /// Read-only with respect to the pool; an empty pool yields an empty
    /// roll.
    pub fn roll(&self) -> (r: PoolRoll)
        ensures
            r.dice_rolls@.len() == self@.len(),
            forall|k: int|
                0 <= k < self@.len() ==> (#[trigger] r.dice_rolls@[k]).die == self@[k]
                    && r.dice_rolls@[k].well_formed(),
    {
        let mut rolls: Vec<DieRoll> = Vec::new();
        let mut i: usize = 0;
        while i < self.dice.len()
            invariant
                i <= self.dice@.len(),
                rolls@.len() == i,
                forall|k: int|
                    0 <= k < i ==> (#[trigger] rolls@[k]).die == self.dice@[k]
                        && rolls@[k].well_formed(),
            decreases self.dice@.len() - i,
        {
            rolls.push(self.dice[i].roll());
            i += 1;
        }
        PoolRoll { dice_rolls: rolls }
    }
}

/// The outcome of rolling a whole pool: one die-level roll per die, in the
/// pool's order at roll time.
#[derive(Debug, Clone, PartialEq, Eq)]
pub struct PoolRoll {
    pub dice_rolls: Vec<DieRoll>,
}

impl PoolRoll {
    /// A pool-level roll from the given die-level rolls, in the given
    /// order.
    pub fn new(dice_rolls: Vec<DieRoll>) -> (r: PoolRoll)
        ensures
            r.dice_rolls == dice_rolls,
    {
        PoolRoll { dice_rolls }
    }
}

} // verus!
