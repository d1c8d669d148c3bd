//! Die kinds, their fixed face tables, and the random face draw.

use vstd::prelude::*;

use crate::symbols::{side_symbols, Side, Symbol};

verus! {

/// A die kind. Each kind is bound to a fixed, non-empty face table.
#[derive(Debug, Clone, Copy, PartialEq, Eq, Structural, PartialOrd, Ord, Hash)]
pub enum Die {
    Ability,
    Proficiency,
    Difficulty,
    Challange,
    Boost,
    Setback,
    Force,
}

/// The fixed kind-priority order over die kinds: pools are kept sorted by
/// this rank, so display is deterministic and pool equality is independent
/// of insertion order.
pub open spec fn die_rank(d: Die) -> int {
    match d {
        Die::Ability => 0,
        Die::Proficiency => 1,
        Die::Difficulty => 2,
        Die::Challange => 3,
        Die::Boost => 4,
        Die::Setback => 5,
        Die::Force => 6,
    }
}

/// The fixed face table of a die kind, authored from the game's published
/// distribution tables.
pub open spec fn die_table(d: Die) -> Seq<Side> {
    match d {
        Die::Ability => seq![
            Side::Blank,
            Side::One(Symbol::Success),
            Side::Two(Symbol::Success, Symbol::Success),
            Side::One(Symbol::Advantage),
            Side::Two(Symbol::Advantage, Symbol::Advantage),
            Side::One(Symbol::Success),
            Side::Two(Symbol::Advantage, Symbol::Success),
            Side::One(Symbol::Advantage),
        ],
        Die::Proficiency => seq![
            Side::Blank,
            Side::One(Symbol::Success),
            Side::One(Symbol::Success),
            Side::One(Symbol::Triumph),
            Side::Two(Symbol::Success, Symbol::Success),
            Side::Two(Symbol::Success, Symbol::Success),
            Side::Two(Symbol::Advantage, Symbol::Advantage),
            Side::Two(Symbol::Advantage, Symbol::Advantage),
            Side::One(Symbol::Advantage),
            Side::Two(Symbol::Success, Symbol::Advantage),
            Side::Two(Symbol::Success, Symbol::Advantage),
            Side::Two(Symbol::Success, Symbol::Advantage),
        ],
        Die::Difficulty => seq![
            Side::Blank,
            Side::Two(Symbol::Failure, Symbol::Failure),
            Side::One(Symbol::Threat),
            Side::Two(Symbol::Failure, Symbol::Threat),
            Side::Two(Symbol::Threat, Symbol::Threat),
            Side::One(Symbol::Threat),
            Side::One(Symbol::Failure),
            Side::One(Symbol::Threat),
        ],
        Die::Challange => seq![
            Side::Blank,
            Side::One(Symbol::Failure),
            Side::One(Symbol::Failure),
            Side::One(Symbol::Threat),
            Side::One(Symbol::Threat),
            Side::One(Symbol::Despair),
            Side::Two(Symbol::Threat, Symbol::Threat),
            Side::Two(Symbol::Threat, Symbol::Threat),
            Side::Two(Symbol::Failure, Symbol::Failure),
            Side::Two(Symbol::Failure, Symbol::Failure),
            Side::Two(Symbol::Failure, Symbol::Threat),
            Side::Two(Symbol::Failure, Symbol::Threat),
        ],
        Die::Boost => seq![
            Side::Blank,
            Side::Blank,
            Side::One(Symbol::Success),
            Side::One(Symbol::Advantage),
            Side::Two(Symbol::Success, Symbol::Advantage),
            Side::Two(Symbol::Advantage, Symbol::Advantage),
        ],
        Die::Setback => seq![
            Side::Blank,
            Side::Blank,
            Side::One(Symbol::Failure),
            Side::One(Symbol::Failure),
            Side::One(Symbol::Threat),
            Side::One(Symbol::Threat),
        ],
        Die::Force => seq![
            Side::One(Symbol::LightSide),
            Side::One(Symbol::LightSide),
            Side::One(Symbol::DarkSide),
            Side::One(Symbol::DarkSide),
            Side::One(Symbol::DarkSide),
            Side::One(Symbol::DarkSide),
            Side::One(Symbol::DarkSide),
            Side::One(Symbol::DarkSide),
            Side::Two(Symbol::LightSide, Symbol::LightSide),
            Side::Two(Symbol::LightSide, Symbol::LightSide),
            Side::Two(Symbol::LightSide, Symbol::LightSide),
            Side::Two(Symbol::DarkSide, Symbol::DarkSide),
        ],
    }
}

/// Every face table is non-empty, so a draw is always possible.
pub proof fn lemma_die_table_nonempty(d: Die)
    ensures
        die_table(d).len() > 0,
{
    match d {
        Die::Ability => assert(die_table(d).len() == 8),
        Die::Proficiency => assert(die_table(d).len() == 12),
        Die::Difficulty => assert(die_table(d).len() == 8),
        Die::Challange => assert(die_table(d).len() == 12),
        Die::Boost => assert(die_table(d).len() == 6),
        Die::Setback => assert(die_table(d).len() == 6),
        Die::Force => assert(die_table(d).len() == 12),
    }
}

/// Relies on rand::random: draws a value of type T from the thread-local
/// generator. Nothing is promised of the value.
pub assume_specification<T>[ rand::random::<T> ]() -> (r: T)
    where
        rand::distributions::Standard: rand::distributions::Distribution<T>,
;

impl Die {
    /// This kind's position in the fixed kind-priority order.
    pub fn rank(&self) -> (r: u8)
        ensures
            r as int == die_rank(*self),
    {
        match self {
            Die::Ability => 0,
            Die::Proficiency => 1,
            Die::Difficulty => 2,
            Die::Challange => 3,
            Die::Boost => 4,
            Die::Setback => 5,
            Die::Force => 6,
        }
    }

    /// The face table of this die kind.
    pub fn sides(&self) -> (r: Vec<Side>)
        ensures
            r@ == die_table(*self),
    {
        let mut v: Vec<Side> = Vec::new();
        match self {
            Die::Ability => {
                v.push(Side::Blank);
                v.push(Side::One(Symbol::Success));
                v.push(Side::Two(Symbol::Success, Symbol::Success));
                v.push(Side::One(Symbol::Advantage));
                v.push(Side::Two(Symbol::Advantage, Symbol::Advantage));
                v.push(Side::One(Symbol::Success));
                v.push(Side::Two(Symbol::Advantage, Symbol::Success));
                v.push(Side::One(Symbol::Advantage));
            },
            Die::Proficiency => {
                v.push(Side::Blank);
                v.push(Side::One(Symbol::Success));
                v.push(Side::One(Symbol::Success));
                v.push(Side::One(Symbol::Triumph));
                v.push(Side::Two(Symbol::Success, Symbol::Success));
                v.push(Side::Two(Symbol::Success, Symbol::Success));
                v.push(Side::Two(Symbol::Advantage, Symbol::Advantage));
                v.push(Side::Two(Symbol::Advantage, Symbol::Advantage));
                v.push(Side::One(Symbol::Advantage));
                v.push(Side::Two(Symbol::Success, Symbol::Advantage));
                v.push(Side::Two(Symbol::Success, Symbol::Advantage));
                v.push(Side::Two(Symbol::Success, Symbol::Advantage));
            },
            Die::Difficulty => {
                v.push(Side::Blank);
                v.push(Side::Two(Symbol::Failure, Symbol::Failure));
                v.push(Side::One(Symbol::Threat));
                v.push(Side::Two(Symbol::Failure, Symbol::Threat));
                v.push(Side::Two(Symbol::Threat, Symbol::Threat));
                v.push(Side::One(Symbol::Threat));
                v.push(Side::One(Symbol::Failure));
                v.push(Side::One(Symbol::Threat));
            },
            Die::Challange => {
                v.push(Side::Blank);
                v.push(Side::One(Symbol::Failure));
                v.push(Side::One(Symbol::Failure));
                v.push(Side::One(Symbol::Threat));
                v.push(Side::One(Symbol::Threat));
                v.push(Side::One(Symbol::Despair));
                v.push(Side::Two(Symbol::Threat, Symbol::Threat));
                v.push(Side::Two(Symbol::Threat, Symbol::Threat));
                v.push(Side::Two(Symbol::Failure, Symbol::Failure));
                v.push(Side::Two(Symbol::Failure, Symbol::Failure));
                v.push(Side::Two(Symbol::Failure, Symbol::Threat));
                v.push(Side::Two(Symbol::Failure, Symbol::Threat));
            },
            Die::Boost => {
                v.push(Side::Blank);
                v.push(Side::Blank);
                v.push(Side::One(Symbol::Success));
                v.push(Side::One(Symbol::Advantage));
                v.push(Side::Two(Symbol::Success, Symbol::Advantage));
                v.push(Side::Two(Symbol::Advantage, Symbol::Advantage));
            },
            Die::Setback => {
                v.push(Side::Blank);
                v.push(Side::Blank);
                v.push(Side::One(Symbol::Failure));
                v.push(Side::One(Symbol::Failure));
                v.push(Side::One(Symbol::Threat));
                v.push(Side::One(Symbol::Threat));
            },
            Die::Force => {
                v.push(Side::One(Symbol::LightSide));
                v.push(Side::One(Symbol::LightSide));
                v.push(Side::One(Symbol::DarkSide));
                v.push(Side::One(Symbol::DarkSide));
                v.push(Side::One(Symbol::DarkSide));
                v.push(Side::One(Symbol::DarkSide));
                v.push(Side::One(Symbol::DarkSide));
                v.push(Side::One(Symbol::DarkSide));
                v.push(Side::Two(Symbol::LightSide, Symbol::LightSide));
                v.push(Side::Two(Symbol::LightSide, Symbol::LightSide));
                v.push(Side::Two(Symbol::LightSide, Symbol::LightSide));
                v.push(Side::Two(Symbol::DarkSide, Symbol::DarkSide));
            },
        }
        assert(v@ =~= die_table(*self));
        v
    }

    /// Draws the face at `index` modulo the table length: the pure part of a
    /// roll, with the random index supplied by the caller. Deterministic, so
    /// tests can fix a face outcome.
    pub fn roll_with_index(&self, index: usize) -> (r: DieRoll)
        ensures
            r.die == *self,
            r.side == die_table(*self)[index as int % die_table(*self).len() as int],
            r.well_formed(),
    {
        let sides = self.sides();
        proof {
            lemma_die_table_nonempty(*self);
        }
        let i = index % sides.len();
        DieRoll { die: *self, side: sides[i] }
    }

    /// Rolls this die: draws one face from its own table, uniformly at
    /// random. The chosen face always comes from this kind's table.
    pub fn roll(&self) -> (r: DieRoll)
        ensures
            r.die == *self,
            r.well_formed(),
    {
        self.roll_with_index(rand::random::<usize>())
    }
}

/// The outcome of rolling one die: the kind and the face that came up.
#[derive(Debug, Clone, Copy, PartialEq, Eq, Structural)]
pub struct DieRoll {
    pub die: Die,
    pub side: Side,
}

impl DieRoll {
    /// A die-level roll is well-formed when its face comes from its own
    /// die kind's table.
    pub open spec fn well_formed(self) -> bool {
        die_table(self.die).contains(self.side)
    }

    /// The symbols this roll yields: exactly the chosen face's symbols.
    pub fn symbols(&self) -> (r: Vec<Symbol>)
        ensures
            r@ == side_symbols(self.side),
    {
        self.side.symbols()
    }
}

} // verus!
