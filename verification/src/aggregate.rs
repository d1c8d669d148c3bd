//! Reducing rolled symbols to a canonical net result.
//!
//! The raw tally counts every symbol of every roll, with the compound
//! symbols also scoring their base counterpart. The opposed pairs then
//! cancel one-for-one, leaving at most one side of each pair.

use vstd::prelude::*;
use vstd::slice::slice_index_get;

use crate::dice::DieRoll;
use crate::pool::PoolRoll;
use crate::symbols::{side_symbols, Symbol};

verus! {

/// All symbols yielded by a sequence of die-level rolls, concatenated in
/// roll order.
pub open spec fn all_symbols(rolls: Seq<DieRoll>) -> Seq<Symbol>
    decreases rolls.len(),
{
    if rolls.len() == 0 {
        Seq::empty()
    } else {
        all_symbols(rolls.drop_last()) + side_symbols(rolls.last().side)
    }
}

/// How often a symbol occurs in a sequence of symbols.
pub open spec fn occurrences(syms: Seq<Symbol>, s: Symbol) -> nat
    decreases syms.len(),
{
    if syms.len() == 0 {
        0
    } else {
        occurrences(syms.drop_last(), s) + (if syms.last() == s {
            1nat
        } else {
            0nat
        })
    }
}

/// The raw tally of a symbol over a bag of symbols: its own occurrences,
/// plus — for the two base symbols implied by a compound symbol — the
/// occurrences of that compound symbol.
pub open spec fn raw_of_symbols(syms: Seq<Symbol>, s: Symbol) -> nat {
    occurrences(syms, s) + (match s {
        Symbol::Success => occurrences(syms, Symbol::Triumph),
        Symbol::Failure => occurrences(syms, Symbol::Despair),
        _ => 0nat,
    })
}

/// The raw tally of a symbol over a sequence of rolls.
pub open spec fn raw_tally(rolls: Seq<DieRoll>, s: Symbol) -> nat {
    raw_of_symbols(all_symbols(rolls), s)
}

/// The symbol that cancels `s` one-for-one, if any. The compound symbols
/// are never themselves cancelled.
pub open spec fn opposed(s: Symbol) -> Option<Symbol> {
    match s {
        Symbol::Success => Some(Symbol::Failure),
        Symbol::Failure => Some(Symbol::Success),
        Symbol::Advantage => Some(Symbol::Threat),
        Symbol::Threat => Some(Symbol::Advantage),
        Symbol::LightSide => Some(Symbol::DarkSide),
        Symbol::DarkSide => Some(Symbol::LightSide),
        Symbol::Triumph => None,
        Symbol::Despair => None,
    }
}

/// The canonical net count of a symbol after cancellation: the raw tally,
/// reduced by the opposed symbol's raw tally, floored at zero.
pub open spec fn net_count(rolls: Seq<DieRoll>, s: Symbol) -> nat {
    match opposed(s) {
        Some(o) => if raw_tally(rolls, s) > raw_tally(rolls, o) {
            (raw_tally(rolls, s) - raw_tally(rolls, o)) as nat
        } else {
            0nat
        },
        None => raw_tally(rolls, s),
    }
}

/// The canonical net outcome of a roll: a count per symbol, where absence
/// of a symbol means a count of zero.
#[derive(Debug, Clone)]
pub struct AggregatedSymbols {
    success: usize,
    advantage: usize,
    failure: usize,
    threat: usize,
    triumph: usize,
    despair: usize,
    light_side: usize,
    dark_side: usize,
}

/// All symbols of all rolls, in roll order.
fn collect_symbols(dice_rolls: &[DieRoll]) -> (r: Vec<Symbol>)
    ensures
        r@ == all_symbols(dice_rolls@),
        r@.len() <= 2 * dice_rolls@.len(),
{
    let mut v: Vec<Symbol> = Vec::new();
    assert(dice_rolls@.take(0) =~= Seq::<DieRoll>::empty());
    assert(v@ =~= all_symbols(dice_rolls@.take(0)));
    let mut i: usize = 0;
    while i < dice_rolls.len()
        invariant
            i <= dice_rolls@.len(),
            v@ == all_symbols(dice_rolls@.take(i as int)),
            v@.len() <= 2 * i,
        decreases dice_rolls@.len() - i,
    {
        let mut part = slice_index_get(dice_rolls, i).symbols();
        proof {
            let pre = dice_rolls@.take(i as int);
            assert(dice_rolls@.take(i + 1).drop_last() =~= pre);
            assert(dice_rolls@.take(i + 1).last() == dice_rolls@[i as int]);
            assert(side_symbols(dice_rolls@[i as int].side).len() <= 2);
        }
        v.append(&mut part);
        i += 1;
    }
    assert(dice_rolls@.take(dice_rolls@.len() as int) =~= dice_rolls@);
    v
}

impl AggregatedSymbols {
    /// The net count of a symbol; zero means the symbol is absent from the
    /// result.
    pub closed spec fn count_spec(self, s: Symbol) -> nat {
        match s {
            Symbol::Success => self.success as nat,
            Symbol::Advantage => self.advantage as nat,
            Symbol::Failure => self.failure as nat,
            Symbol::Threat => self.threat as nat,
            Symbol::Triumph => self.triumph as nat,
            Symbol::Despair => self.despair as nat,
            Symbol::LightSide => self.light_side as nat,
            Symbol::DarkSide => self.dark_side as nat,
        }
    }

    /// The mutual-cancellation invariant: after aggregation, at most one
    /// side of each opposed pair is present.
    pub open spec fn normalized(self) -> bool {
        &&& self.count_spec(Symbol::Success) == 0 || self.count_spec(Symbol::Failure) == 0
        &&& self.count_spec(Symbol::Advantage) == 0 || self.count_spec(Symbol::Threat) == 0
        &&& self.count_spec(Symbol::LightSide) == 0 || self.count_spec(Symbol::DarkSide) == 0
    }

    /// The result holds no symbol at all.
    pub open spec fn is_blank_spec(self) -> bool {
        forall|s: Symbol| self.count_spec(s) == 0
    }

    /// The net count of a symbol.
    pub fn count(&self, s: Symbol) -> (r: usize)
        ensures
            r == self.count_spec(s),
    {
        match s {
            Symbol::Success => self.success,
            Symbol::Advantage => self.advantage,
            Symbol::Failure => self.failure,
            Symbol::Threat => self.threat,
            Symbol::Triumph => self.triumph,
            Symbol::Despair => self.despair,
            Symbol::LightSide => self.light_side,
            Symbol::DarkSide => self.dark_side,
        }
    }

    /// Whether the result holds no symbol at all.
    pub fn is_blank(&self) -> (r: bool)
        ensures
            r == self.is_blank_spec(),
    {
        let r = self.success == 0 && self.advantage == 0 && self.failure == 0 && self.threat == 0
            && self.triumph == 0 && self.despair == 0 && self.light_side == 0 && self.dark_side
            == 0;
        proof {
            if r {
                assert forall|s: Symbol| self.count_spec(s) == 0 by {
                    match s {
                        Symbol::Success => {},
                        Symbol::Advantage => {},
                        Symbol::Failure => {},
                        Symbol::Threat => {},
                        Symbol::Triumph => {},
                        Symbol::Despair => {},
                        Symbol::LightSide => {},
                        Symbol::DarkSide => {},
                    }
                }
            } else {
                if self.success != 0 {
                    assert(self.count_spec(Symbol::Success) != 0);
                } else if self.advantage != 0 {
                    assert(self.count_spec(Symbol::Advantage) != 0);
                } else if self.failure != 0 {
                    assert(self.count_spec(Symbol::Failure) != 0);
                } else if self.threat != 0 {
                    assert(self.count_spec(Symbol::Threat) != 0);
                } else if self.triumph != 0 {
                    assert(self.count_spec(Symbol::Triumph) != 0);
                } else if self.despair != 0 {
                    assert(self.count_spec(Symbol::Despair) != 0);
                } else if self.light_side != 0 {
                    assert(self.count_spec(Symbol::LightSide) != 0);
                } else {
                    assert(self.count_spec(Symbol::DarkSide) != 0);
                }
            }
        }
        r
    }

    /// Aggregates a collection of die-level rolls into the canonical net
    /// result: raw tally (compound symbols also score their base
    /// counterpart), then one-for-one cancellation within each opposed
    /// pair.
    pub fn new(dice_rolls: &[DieRoll]) -> (r: AggregatedSymbols)
        requires
            2 * dice_rolls@.len() <= usize::MAX,
        ensures
            forall|s: Symbol| r.count_spec(s) == net_count(dice_rolls@, s),
            r.normalized(),
    {
        let syms = collect_symbols(dice_rolls);

        let mut success: usize = 0;
        let mut advantage: usize = 0;
        let mut failure: usize = 0;
        let mut threat: usize = 0;
        let mut triumph: usize = 0;
        let mut despair: usize = 0;
        let mut light_side: usize = 0;
        let mut dark_side: usize = 0;

        assert(syms@.take(0) =~= Seq::<Symbol>::empty());

        let mut j: usize = 0;
        while j < syms.len()
            invariant
                j <= syms@.len(),
                syms@.len() <= usize::MAX,
                success as int == raw_of_symbols(syms@.take(j as int), Symbol::Success),
                advantage as int == raw_of_symbols(syms@.take(j as int), Symbol::Advantage),
                failure as int == raw_of_symbols(syms@.take(j as int), Symbol::Failure),
                threat as int == raw_of_symbols(syms@.take(j as int), Symbol::Threat),
                triumph as int == raw_of_symbols(syms@.take(j as int), Symbol::Triumph),
                despair as int == raw_of_symbols(syms@.take(j as int), Symbol::Despair),
                light_side as int == raw_of_symbols(syms@.take(j as int), Symbol::LightSide),
                dark_side as int == raw_of_symbols(syms@.take(j as int), Symbol::DarkSide),
                success as int <= j,
                advantage as int <= j,
                failure as int <= j,
                threat as int <= j,
                triumph as int <= j,
                despair as int <= j,
                light_side as int <= j,
                dark_side as int <= j,
            decreases syms@.len() - j,
        {
            proof {
                let pre = syms@.take(j as int);
                assert(syms@.take(j + 1).drop_last() =~= pre);
                assert(syms@.take(j + 1).last() == syms@[j as int]);
                lemma_occurrence_bound(syms@.take(j + 1), Symbol::Success);
                lemma_occurrence_bound(syms@.take(j + 1), Symbol::Advantage);
                lemma_occurrence_bound(syms@.take(j + 1), Symbol::Failure);
                lemma_occurrence_bound(syms@.take(j + 1), Symbol::Threat);
                lemma_occurrence_bound(syms@.take(j + 1), Symbol::Triumph);
                lemma_occurrence_bound(syms@.take(j + 1), Symbol::Despair);
                lemma_occurrence_bound(syms@.take(j + 1), Symbol::LightSide);
                lemma_occurrence_bound(syms@.take(j + 1), Symbol::DarkSide);
            }
            match *slice_index_get(syms.as_slice(), j) {
                Symbol::Triumph => {
                    triumph = triumph + 1;
                    success = success + 1;
                },
                Symbol::Despair => {
                    despair = despair + 1;
                    failure = failure + 1;
                },
                Symbol::Success => {
                    success = success + 1;
                },
                Symbol::Advantage => {
                    advantage = advantage + 1;
                },
                Symbol::Failure => {
                    failure = failure + 1;
                },
                Symbol::Threat => {
                    threat = threat + 1;
                },
                Symbol::LightSide => {
                    light_side = light_side + 1;
                },
                Symbol::DarkSide => {
                    dark_side = dark_side + 1;
                },
            }
            j += 1;
        }
        assert(syms@.take(syms@.len() as int) =~= syms@);

        // Pairwise normalization: the smaller side of each opposed pair is
        // removed and the larger side is reduced by it.
        if success >= failure {
            success = success - failure;
            failure = 0;
        } else {
            failure = failure - success;
            success = 0;
        }
        if advantage >= threat {
            advantage = advantage - threat;
            threat = 0;
        } else {
            threat = threat - advantage;
            advantage = 0;
        }
        if light_side >= dark_side {
            light_side = light_side - dark_side;
            dark_side = 0;
        } else {
            dark_side = dark_side - light_side;
            light_side = 0;
        }

        let r = AggregatedSymbols {
            success,
            advantage,
            failure,
            threat,
            triumph,
            despair,
            light_side,
            dark_side,
        };
        proof {
            assert forall|s: Symbol| r.count_spec(s) == net_count(dice_rolls@, s) by {
                match s {
                    Symbol::Success => {},
                    Symbol::Advantage => {},
                    Symbol::Failure => {},
                    Symbol::Threat => {},
                    Symbol::Triumph => {},
                    Symbol::Despair => {},
                    Symbol::LightSide => {},
                    Symbol::DarkSide => {},
                }
            }
        }
        r
    }
}

/// A symbol occurs at most as often as the sequence is long.
proof fn lemma_occurrence_bound(syms: Seq<Symbol>, s: Symbol)
    ensures
        occurrences(syms, s) <= syms.len(),
    decreases syms.len(),
{
    if syms.len() > 0 {
        lemma_occurrence_bound(syms.drop_last(), s);
    }
}

impl DieRoll {
    /// The net result of this single roll's symbols alone.
    pub fn aggregate(&self) -> (r: AggregatedSymbols)
        ensures
            forall|s: Symbol| r.count_spec(s) == net_count(seq![*self], s),
            r.normalized(),
    {
        let v: Vec<DieRoll> = vec![*self];
        assert(v@ =~= seq![*self]);
        AggregatedSymbols::new(v.as_slice())
    }
}

impl PoolRoll {
    /// The net result of all this roll's symbols together.
    pub fn aggregate(&self) -> (r: AggregatedSymbols)
        requires
            2 * self.dice_rolls@.len() <= usize::MAX,
        ensures
            forall|s: Symbol| r.count_spec(s) == net_count(self.dice_rolls@, s),
            r.normalized(),
    {
        AggregatedSymbols::new(self.dice_rolls.as_slice())
    }
}

} // verus!
