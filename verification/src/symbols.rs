//! The symbol vocabulary and die faces.

use vstd::prelude::*;

verus! {

/// An outcome marker shown on a die face.
///
/// `Triumph` and `Despair` are compound: when scored, a `Triumph` also counts
/// as a `Success` and a `Despair` also counts as a `Failure`. The opposed
/// pairs are (`Success`, `Failure`), (`Advantage`, `Threat`) and
/// (`LightSide`, `DarkSide`).
#[derive(Debug, Clone, Copy, PartialEq, Eq, Structural, Hash)]
pub enum Symbol {
    Success,
    Advantage,
    Failure,
    Threat,
    Triumph,
    Despair,
    LightSide,
    DarkSide,
}

/// One side of a die: it yields zero, one or two symbols.
#[derive(Debug, Clone, Copy, PartialEq, Eq, Structural)]
pub enum Side {
    Blank,
    One(Symbol),
    Two(Symbol, Symbol),
}

/// The symbols a side yields, in the order they are written on it.
pub open spec fn side_symbols(side: Side) -> Seq<Symbol> {
    match side {
        Side::Blank => Seq::empty(),
        Side::One(s) => seq![s],
        Side::Two(a, b) => seq![a, b],
    }
}

impl Side {
    /// The symbols this side yields.
    pub fn symbols(&self) -> (r: Vec<Symbol>)
        ensures
            r@ == side_symbols(*self),
    {
        match self {
            Side::Blank => Vec::new(),
            Side::One(s) => {
                let mut v = Vec::new();
                v.push(*s);
                assert(v@ =~= side_symbols(*self));
                v
            },
            Side::Two(a, b) => {
                let mut v = Vec::new();
                v.push(*a);
                v.push(*b);
                assert(v@ =~= side_symbols(*self));
                v
            },
        }
    }
}

} // verus!
