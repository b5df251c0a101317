//! The ways the engine can fail or refuse an input.

use vstd::prelude::*;

verus! {

/// Errors surfaced by the round engine.
#[derive(Debug, Clone, Copy, PartialEq, Eq, Structural)]
pub enum GameError {
    /// The deck had no card left when one was needed. Fatal to the
    /// current round: the round is abandoned, no state is corrupted.
    DeckExhausted,
    /// A decision input was neither hit nor stand. Recoverable: the
    /// caller asks again, nothing changes.
    InvalidDecision,
}

} // verus!
