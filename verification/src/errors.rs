//! The error kinds of the coordinate-based move layer.

use vstd::prelude::*;
use crate::board_location::BoardLocation;

verus! {

/// Errors of the coordinate-based move layer.
#[derive(Debug)]
pub enum Errors {
    /// An access outside the board.
    OutOfBounds,
    /// A generic runtime failure.
    RuntimeError,
    /// A chess rule was broken.
    GameRuleError,
    /// The target square is occupied.
    BoardLocationOccupied,
    /// The FEN text could not be read.
    InvalidFENstring,
    /// The algebraic text could not be read.
    InvalidAlgebraic,
    /// The start of a move is not a valid piece for it.
    InvalidMoveStartCondition,
    /// No piece stands where a move starts; with a description.
    TryingToMoveNonExistantPiece((BoardLocation, String)),
}

} // verus!
