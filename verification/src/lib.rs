//! A dice-pool engine for a narrative tabletop role-playing game.
//!
//! Dice of seven fixed kinds carry faces that show zero, one or two symbols.
//! A pool of dice is assembled, rolled (one uniformly random face per die),
//! and the rolled symbols are reduced to a canonical net result: compound
//! symbols also score their base counterpart, and opposed symbol pairs cancel
//! one-for-one. The net result can be rendered as a display string, and a
//! pool can be encoded to and decoded from a compact character form.

pub mod aggregate;
pub mod codec;
pub mod dice;
pub mod pool;
pub mod render;
pub mod symbols;
