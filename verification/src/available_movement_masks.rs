//! Movement masks of a pawn: the squares it covers when stepping once,
//! stepping twice from its starting rank, or taking diagonally, together
//! with its own square.

use vstd::prelude::*;
use crate::board_location::BoardLocation;
use crate::chess_errors::ChessErrors;
use crate::chess_types::PieceKind;
use crate::game_state::{GameState, GameStateView};
use crate::generate_movements::forward;
use crate::piece_record::{PieceRecord, record_at, view_piece_at_location};
use crate::piece_team::PieceTeam;

verus! {

broadcast use vstd::std_specs::bits::axiom_u64_leading_zeros;

/// A set of squares, file-major.
pub type MovementMask = u64;

/// Whether a piece stands on `loc`.
pub open spec fn occupied(g: GameStateView, loc: BoardLocation) -> bool {
    record_at(g, loc) is Some
}

/// The double-step mask: empty off the starting rank or when either square
/// ahead is taken, else the pawn's square and the two squares ahead.
pub open spec fn double_step_mask(g: GameStateView, p: PieceRecord) -> u64 {
    let f = p.location.file_of();
    let r = p.location.rank_of();
    if (r != 1 && p.team == PieceTeam::Light) || (r != 6 && p.team == PieceTeam::Dark) {
        0
    } else {
        let s1 = BoardLocation::at(f, r + forward(p.team));
        let s2 = BoardLocation::at(f, r + 2 * forward(p.team));
        if occupied(g, s1) || occupied(g, s2) {
            0
        } else {
            p.location.binary_location | s1.binary_location | s2.binary_location
        }
    }
}

/// The single-step mask: empty when the square ahead is taken, else the
/// pawn's square with the square ahead when that is on the board.
pub open spec fn single_step_mask(g: GameStateView, p: PieceRecord) -> u64 {
    match p.location.checked_move(0, forward(p.team) as i8) {
        Ok(n) => if occupied(g, n) {
            0
        } else {
            p.location.binary_location | n.binary_location
        },
        Err(_) => p.location.binary_location,
    }
}

/// The diagonal square `d_file` files across, when something stands there.
pub open spec fn diagonal_hit(g: GameStateView, p: PieceRecord, d_file: i8) -> u64 {
    match p.location.checked_move(d_file, forward(p.team) as i8) {
        Ok(n) => if occupied(g, n) {
            n.binary_location
        } else {
            0
        },
        Err(_) => 0,
    }
}

/// The capture mask: the occupied diagonal squares ahead, with the pawn's
/// own square when there is at least one.
pub open spec fn capture_mask(g: GameStateView, p: PieceRecord) -> u64 {
    let m = diagonal_hit(g, p, 1) | diagonal_hit(g, p, -1i8);
    if m > 0 {
        m | p.location.binary_location
    } else {
        0
    }
}

/// The double-step mask of a pawn; an error for any other kind.
pub fn generate_pawn_double_step_movement_mask(piece_record: &PieceRecord, register: &GameState) -> (r: Result<MovementMask, ChessErrors>)
    requires
        piece_record.location.binary_location != 0,
    ensures
        piece_record.class != PieceKind::Pawn ==> r == Err::<MovementMask, ChessErrors>(
            ChessErrors::GeneratingWrongMovementForPieceType(piece_record.class),
        ),
        piece_record.class == PieceKind::Pawn ==> r == Ok::<MovementMask, ChessErrors>(
            double_step_mask(register@, *piece_record),
        ),
{
    if !matches!(piece_record.class, PieceKind::Pawn) {
        return Err(ChessErrors::GeneratingWrongMovementForPieceType(piece_record.class));
    }
    let (start_file, start_rank) = piece_record.location.get_file_rank();
    if (start_rank != 1 && matches!(piece_record.team, PieceTeam::Light)) || (start_rank != 6
        && matches!(piece_record.team, PieceTeam::Dark)) {
        return Ok(0);
    }
    let direction: i8 = match piece_record.team {
        PieceTeam::Dark => -1,
        PieceTeam::Light => 1,
    };
    let mut result: MovementMask = piece_record.location.binary_location;
    let mut i: i8 = 1;
    while i <= 2
        invariant
            1 <= i <= 3,
            piece_record.class == PieceKind::Pawn,
            start_file == piece_record.location.file_of(),
            start_rank == piece_record.location.rank_of(),
            start_file < 8,
            (start_rank == 1 && piece_record.team == PieceTeam::Light) || (start_rank == 6
                && piece_record.team == PieceTeam::Dark),
            direction == forward(piece_record.team),
            i >= 2 ==> !occupied(register@, BoardLocation::at(start_file as int, start_rank + direction)),
            result == if i == 1 {
                piece_record.location.binary_location
            } else if i == 2 {
                piece_record.location.binary_location | BoardLocation::at(start_file as int, start_rank + direction).binary_location
            } else {
                piece_record.location.binary_location | BoardLocation::at(start_file as int, start_rank + direction).binary_location
                    | BoardLocation::at(start_file as int, start_rank + 2 * direction).binary_location
            },
            i == 3 ==> !occupied(register@, BoardLocation::at(start_file as int, start_rank + 2 * direction)),
        decreases 3 - i,
    {
        let next_rank: i8 = start_rank as i8 + direction * i;
        let next_location = BoardLocation::from_file_rank(start_file, next_rank as u8)?;
        if view_piece_at_location(register, next_location).is_ok() {
            return Ok(0);
        }
        result = result | next_location.binary_location;
        i = i + 1;
    }
    Ok(result)
}

/// The single-step mask of a pawn; an error for any other kind.
pub fn generate_pawn_single_step_movement_mask(piece_record: &PieceRecord, register: &GameState) -> (r: Result<MovementMask, ChessErrors>)
    requires
        piece_record.location.binary_location != 0,
    ensures
        piece_record.class != PieceKind::Pawn ==> r == Err::<MovementMask, ChessErrors>(
            ChessErrors::GeneratingWrongMovementForPieceType(piece_record.class),
        ),
        piece_record.class == PieceKind::Pawn ==> r == Ok::<MovementMask, ChessErrors>(
            single_step_mask(register@, *piece_record),
        ),
{
    if !matches!(piece_record.class, PieceKind::Pawn) {
        return Err(ChessErrors::GeneratingWrongMovementForPieceType(piece_record.class));
    }
    let direction: i8 = match piece_record.team {
        PieceTeam::Dark => -1,
        PieceTeam::Light => 1,
    };
    let mut result: MovementMask = piece_record.location.binary_location;
    if let Ok(next_location) = piece_record.location.generate_moved_location_checked(0, direction) {
        if view_piece_at_location(register, next_location).is_ok() {
            return Ok(0);
        } else {
            result = result | next_location.binary_location;
        }
    }
    Ok(result)
}

/// The diagonal-capture mask of a pawn; an error for any other kind.
pub fn generate_pawn_diagonal_captures_mask(piece_record: &PieceRecord, register: &GameState) -> (r: Result<MovementMask, ChessErrors>)
    requires
        piece_record.location.binary_location != 0,
    ensures
        piece_record.class != PieceKind::Pawn ==> r == Err::<MovementMask, ChessErrors>(
            ChessErrors::GeneratingWrongMovementForPieceType(piece_record.class),
        ),
        piece_record.class == PieceKind::Pawn ==> r == Ok::<MovementMask, ChessErrors>(
            capture_mask(register@, *piece_record),
        ),
{
    if !matches!(piece_record.class, PieceKind::Pawn) {
        return Err(ChessErrors::GeneratingWrongMovementForPieceType(piece_record.class));
    }
    let direction: i8 = match piece_record.team {
        PieceTeam::Dark => -1,
        PieceTeam::Light => 1,
    };
    let mut result: MovementMask = 0;
    let mut right: MovementMask = 0;
    if let Ok(next_location) = piece_record.location.generate_moved_location_checked(1, direction) {
        if view_piece_at_location(register, next_location).is_ok() {
            right = next_location.binary_location;
        }
    }
    assert(right == diagonal_hit(register@, *piece_record, 1));
    result = result | right;
    let mut left: MovementMask = 0;
    if let Ok(next_location) = piece_record.location.generate_moved_location_checked(-1, direction) {
        if view_piece_at_location(register, next_location).is_ok() {
            left = next_location.binary_location;
        }
    }
    assert(left == diagonal_hit(register@, *piece_record, -1i8));
    result = result | left;
    assert(result == right | left) by (bit_vector)
        requires
            result == (0u64 | right) | left,
    ;
    if result > 0 {
        result = result | piece_record.location.binary_location;
    }
    Ok(result)
}

/// The movement mask of any piece, which this generation leaves empty for
/// every kind.
pub fn generate_available_movement_mask(piece: &PieceRecord, game: &GameState) -> (r: Result<MovementMask, ChessErrors>)
    requires
        piece.location.binary_location != 0,
    ensures
        r == Ok::<MovementMask, ChessErrors>(0),
{
    let (_start_file, _start_rank) = piece.location.get_file_rank();
    let result: MovementMask = match piece.class {
        PieceKind::Pawn => 0,
        PieceKind::Knight => 0,
        PieceKind::Bishop => 0,
        PieceKind::Rook => 0,
        PieceKind::Queen => 0,
        PieceKind::King => 0,
    };
    Ok(result)
}

} // verus!
