//! The error type of the square-vector (`BoardLocation`) layer.

use vstd::prelude::*;
use crate::board_location::BoardLocation;
use crate::chess_types::PieceKind;

verus! {

/// Unified error type for the square-vector layer; each variant carries the
/// offending input where one exists.
#[derive(Debug)]
pub enum ChessErrors {
    /// Generic failure.
    FailedTest,
    /// Moving `(origin, d_file, d_rank)` would leave the board.
    TriedToMoveOutOfBounds((BoardLocation, i8, i8)),
    /// A character that is not a valid file or rank.
    InvalidAlgebraicChar(char),
    /// A string that is not valid algebraic notation.
    InvalidAlgebraicString(String),
    /// Removal from an empty square.
    CannotRemoveFromEmptyLocation(BoardLocation),
    /// Removal of a king.
    CannotRemoveKings(BoardLocation),
    /// Access to an empty square.
    TryToViewOrEditEmptySquare(BoardLocation),
    /// File or rank index out of range.
    InvalidFileOrRank((u8, u8)),
    /// Unexpected FEN token.
    InvalidFENtoken(char),
    /// Malformed FEN string.
    InvalidFEDstringForm(String),
    /// A movement generator called for the wrong piece kind.
    GeneratingWrongMovementForPieceType(PieceKind),
    /// A feature that is not implemented.
    FeatureNotImplementedYet,
    /// A direction index outside the generator's range.
    InvalidDirectionSelected(u8),
    /// Corrupted king record.
    KingKeyRecordGotCorrupted,
    /// A side without a king.
    PieceRegisterDoesNotContainAKing,
    /// Failure while inspecting check.
    ErrorDuringCheckInspection(String),
    /// No legal moves.
    NoLegalMoves,
}

} // verus!
