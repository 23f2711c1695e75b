//! Pseudo-legal rook moves.

use vstd::prelude::*;
use crate::chess_types::PieceKind;
use crate::game_state::GameState;
use crate::piece_moves::{extends_with, is_piece_move, push_piece_moves};

verus! {

/// Append to `out` every pseudo-legal rook move of the side to move, each
/// once: for each rook, each attacked square not held by the mover, as a
/// capture when the enemy occupancy covers it. The order of the appended
/// moves is not part of this contract.
pub fn generate_rook_moves(game_state: &GameState, out: &mut Vec<u64>)
    ensures
        extends_with(old(out)@, final(out)@, |m: u64| is_piece_move(game_state@, PieceKind::Rook, m)),
{
    push_piece_moves(game_state, out, PieceKind::Rook);
}

} // verus!
