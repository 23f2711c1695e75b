//! The move-generator interface: generated moves with the position they lead
//! to and their check annotations, and the generation error.

use vstd::prelude::*;
use crate::game_state::{GameState, GameStateView};

verus! {

/// Why move generation failed.
#[derive(Debug, Clone, PartialEq, Eq)]
pub enum MoveGenerationError {
    NotImplemented,
    InvalidState(String),
}

impl MoveGenerationError {
    /// The human-readable message of the error.
    pub fn message(&self) -> (r: String)
        ensures
            self matches MoveGenerationError::NotImplemented ==> r@
                == "move generation is not implemented yet"@,
            self matches MoveGenerationError::InvalidState(msg) ==> r@ == "invalid game state: "@
                + msg@,
    {
        match self {
            MoveGenerationError::NotImplemented => String::from_str(
                "move generation is not implemented yet",
            ),
            MoveGenerationError::InvalidState(msg) => {
                let mut s = String::from_str("invalid game state: ");
                s.append(msg.as_str());
                s
            },
        }
    }
}

/// Result of move generation.
pub type MoveGenResult<T> = Result<T, MoveGenerationError>;

/// Check information about a generated move.
#[derive(Debug, Clone, Copy, PartialEq, Eq, Structural)]
pub struct MoveAnnotations {
    pub gives_check: bool,
    pub is_discovery_check: bool,
    pub is_double_check: bool,
    pub is_checkmate: bool,
}

/// No check information: all four flags clear.
pub open spec fn no_annotations() -> MoveAnnotations {
    MoveAnnotations {
        gives_check: false,
        is_discovery_check: false,
        is_double_check: false,
        is_checkmate: false,
    }
}

impl Default for MoveAnnotations {
    fn default() -> (r: Self)
        ensures
            r == no_annotations(),
    {
        MoveAnnotations {
            gives_check: false,
            is_discovery_check: false,
            is_double_check: false,
            is_checkmate: false,
        }
    }
}

/// A legal move, the position after it, and its check annotations.
#[derive(Debug)]
pub struct GeneratedMove {
    pub move_description: u64,
    pub game_after_move: GameState,
    pub annotations: MoveAnnotations,
}

impl Clone for GeneratedMove {
    fn clone(&self) -> (r: Self)
        ensures
            r.move_description == self.move_description,
            r.game_after_move@ == self.game_after_move@,
            r.annotations == self.annotations,
    {
        GeneratedMove {
            move_description: self.move_description,
            game_after_move: self.game_after_move.clone(),
            annotations: self.annotations,
        }
    }
}

/// A source of legal moves for a position.
pub trait MoveGenerator {
    /// `moves` is a listing this generator may answer for position `v`;
    /// a generator that says nothing more may answer any listing.
    open spec fn generates(&self, v: GameStateView, moves: Seq<GeneratedMove>) -> bool {
        true
    }

    /// This generator answers position `v` with a listing rather than an
    /// error; a generator that says nothing more may answer any position.
    open spec fn answers(&self, v: GameStateView) -> bool {
        true
    }

    /// The legal moves of `game_state`, each with the position it leads to;
    /// an error exactly on the positions the generator does not answer.
    fn generate_legal_moves(&self, game_state: &GameState) -> (r: MoveGenResult<Vec<GeneratedMove>>)
        ensures
            r is Ok <==> self.answers(game_state@),
            r matches Ok(moves) ==> self.generates(game_state@, moves@),
    ;
}

/// A generator that has no implementation: it always fails.
pub struct NullMoveGenerator;

impl MoveGenerator for NullMoveGenerator {
    /// It answers no listing.
    open spec fn generates(&self, v: GameStateView, moves: Seq<GeneratedMove>) -> bool {
        false
    }

    /// It answers no position.
    open spec fn answers(&self, v: GameStateView) -> bool {
        false
    }

    fn generate_legal_moves(&self, _game_state: &GameState) -> (r: MoveGenResult<Vec<GeneratedMove>>)
        ensures
            r matches Err(MoveGenerationError::NotImplemented),
    {
        Err(MoveGenerationError::NotImplemented)
    }
}

} // verus!
