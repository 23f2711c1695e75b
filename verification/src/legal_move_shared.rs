//! Square lookups shared by the move generators.

use vstd::prelude::*;
use crate::bits::lemma_mask_ops;
use crate::chess_types::{Color, PieceKind, Square};
use crate::game_state::GameState;

verus! {

/// The kind (first in kind order) that `color` has on `square`.
pub fn piece_on_square_for_color(game_state: &GameState, color: Color, square: Square) -> (r: Option<
    PieceKind,
>)
    requires
        square < 64,
    ensures
        r == game_state@.kind_at(color, square as u64),
{
    let mask = 1u64 << square;
    let c = color.index();
    proof {
        lemma_mask_ops(game_state.pieces[c as int][0], square as u64, 0);
        lemma_mask_ops(game_state.pieces[c as int][1], square as u64, 0);
        lemma_mask_ops(game_state.pieces[c as int][2], square as u64, 0);
        lemma_mask_ops(game_state.pieces[c as int][3], square as u64, 0);
        lemma_mask_ops(game_state.pieces[c as int][4], square as u64, 0);
        lemma_mask_ops(game_state.pieces[c as int][5], square as u64, 0);
    }
    if (game_state.pieces[c][0] & mask) != 0 {
        Some(PieceKind::Pawn)
    } else if (game_state.pieces[c][1] & mask) != 0 {
        Some(PieceKind::Knight)
    } else if (game_state.pieces[c][2] & mask) != 0 {
        Some(PieceKind::Bishop)
    } else if (game_state.pieces[c][3] & mask) != 0 {
        Some(PieceKind::Rook)
    } else if (game_state.pieces[c][4] & mask) != 0 {
        Some(PieceKind::Queen)
    } else if (game_state.pieces[c][5] & mask) != 0 {
        Some(PieceKind::King)
    } else {
        None
    }
}

/// The kind the side not to move has on `square`.
pub fn enemy_piece_on(game_state: &GameState, square: Square) -> (r: Option<PieceKind>)
    requires
        square < 64,
    ensures
        r == game_state@.kind_at(game_state.side_to_move.other(), square as u64),
{
    piece_on_square_for_color(game_state, game_state.side_to_move.opposite(), square)
}

/// The piece on `square`, looking at Light's boards first.
pub fn piece_on_square_any(game_state: &GameState, square: Square) -> (r: Option<(Color, PieceKind)>)
    requires
        square < 64,
    ensures
        r == game_state@.occupant(square as u64),
{
    if let Some(piece) = piece_on_square_for_color(game_state, Color::Light, square) {
        return Some((Color::Light, piece));
    }
    if let Some(piece) = piece_on_square_for_color(game_state, Color::Dark, square) {
        return Some((Color::Dark, piece));
    }
    None
}

} // verus!
