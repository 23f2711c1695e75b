//! Single-step movement vectors for each piece kind on `BoardLocation`s.

use vstd::prelude::*;
use crate::board_location::BoardLocation;
use crate::chess_errors::ChessErrors;
use crate::piece_team::PieceTeam;

verus! {

/// Forward rank direction of a team.
pub open spec fn forward(team: PieceTeam) -> int {
    match team {
        PieceTeam::Dark => -1,
        PieceTeam::Light => 1,
    }
}

/// Knight offsets, counter-clockwise starting east-north-east.
pub open spec fn knight_delta(direction: u8) -> (int, int) {
    if direction == 0 {
        (2, 1)
    } else if direction == 1 {
        (1, 2)
    } else if direction == 2 {
        (-1, 2)
    } else if direction == 3 {
        (-2, 1)
    } else if direction == 4 {
        (-2, -1)
    } else if direction == 5 {
        (-1, -2)
    } else if direction == 6 {
        (1, -2)
    } else {
        (2, -1)
    }
}

/// Bishop unit directions, counter-clockwise starting north-east.
pub open spec fn bishop_delta(direction: u8) -> (int, int) {
    if direction == 0 {
        (1, 1)
    } else if direction == 1 {
        (-1, 1)
    } else if direction == 2 {
        (-1, -1)
    } else {
        (1, -1)
    }
}

/// Rook unit directions, counter-clockwise starting east.
pub open spec fn rook_delta(direction: u8) -> (int, int) {
    if direction == 0 {
        (1, 0)
    } else if direction == 1 {
        (0, 1)
    } else if direction == 2 {
        (-1, 0)
    } else {
        (0, -1)
    }
}

/// King directions, counter-clockwise starting east.
pub open spec fn king_delta(direction: u8) -> (int, int) {
    if direction == 0 {
        (1, 0)
    } else if direction == 1 {
        (1, 1)
    } else if direction == 2 {
        (0, 1)
    } else if direction == 3 {
        (-1, 1)
    } else if direction == 4 {
        (-1, 0)
    } else if direction == 5 {
        (-1, -1)
    } else if direction == 6 {
        (0, -1)
    } else {
        (1, -1)
    }
}

/// A unit direction scaled by `distance` (cast to `i8`, as the generators
/// do) stays within `i8` and the bounds-checked move is defined.
pub open spec fn scaled_move_defined(loc: BoardLocation, delta: (int, int), distance: u8) -> bool {
    let m = (distance as i8) as int;
    &&& -128 <= delta.0 * m <= 127
    &&& -128 <= delta.1 * m <= 127
    &&& loc.checked_move_defined(delta.0 * m, delta.1 * m)
}

/// Move a pawn two squares forward.
pub fn generate_pawn_double_step_movement(board_location: BoardLocation, team: PieceTeam) -> (r:
    Result<BoardLocation, ChessErrors>)
    requires
        board_location.binary_location != 0,
    ensures
        r == board_location.checked_move(0, (2 * forward(team)) as i8),
{
    let direction: i8 = match team {
        PieceTeam::Dark => -2,
        PieceTeam::Light => 2,
    };
    board_location.generate_moved_location_checked(0, direction)
}

/// Move a pawn one square forward.
pub fn generate_pawn_single_step_movement(board_location: BoardLocation, team: PieceTeam) -> (r:
    Result<BoardLocation, ChessErrors>)
    requires
        board_location.binary_location != 0,
    ensures
        r == board_location.checked_move(0, forward(team) as i8),
{
    let direction: i8 = match team {
        PieceTeam::Dark => -1,
        PieceTeam::Light => 1,
    };
    board_location.generate_moved_location_checked(0, direction)
}

/// Move a pawn one square forward and `d_file` files sideways.
pub fn generate_pawn_capture_movement(board_location: BoardLocation, team: PieceTeam, d_file: i8) -> (r:
    Result<BoardLocation, ChessErrors>)
    requires
        board_location.checked_move_defined(d_file as int, forward(team)),
    ensures
        r == board_location.checked_move(d_file, forward(team) as i8),
{
    let d_rank: i8 = match team {
        PieceTeam::Dark => -1,
        PieceTeam::Light => 1,
    };
    board_location.generate_moved_location_checked(d_file, d_rank)
}

/// Knight jump number `direction` (0..8).
pub fn generate_knight_movement(board_location: BoardLocation, direction: u8) -> (r: Result<
    BoardLocation,
    ChessErrors,
>)
    requires
        board_location.binary_location != 0,
    ensures
        direction >= 8 ==> r == Err::<BoardLocation, ChessErrors>(
            ChessErrors::InvalidDirectionSelected(direction),
        ),
        direction < 8 ==> r == board_location.checked_move(
            knight_delta(direction).0 as i8,
            knight_delta(direction).1 as i8,
        ),
{
    let (d_file, d_rank): (i8, i8) = if direction == 0 {
        (2, 1)
    } else if direction == 1 {
        (1, 2)
    } else if direction == 2 {
        (-1, 2)
    } else if direction == 3 {
        (-2, 1)
    } else if direction == 4 {
        (-2, -1)
    } else if direction == 5 {
        (-1, -2)
    } else if direction == 6 {
        (1, -2)
    } else if direction == 7 {
        (2, -1)
    } else {
        return Err(ChessErrors::InvalidDirectionSelected(direction));
    };
    board_location.generate_moved_location_checked(d_file, d_rank)
}

/// Bishop slide along direction `direction` (0..4) by `distance` squares.
pub fn generate_bishop_movement(board_location: BoardLocation, direction: u8, distance: u8) -> (r:
    Result<BoardLocation, ChessErrors>)
    requires
        board_location.binary_location != 0,
        direction < 4 ==> scaled_move_defined(board_location, bishop_delta(direction), distance),
    ensures
        direction >= 4 ==> r == Err::<BoardLocation, ChessErrors>(
            ChessErrors::InvalidDirectionSelected(direction),
        ),
        direction < 4 ==> r == board_location.checked_move(
            (bishop_delta(direction).0 * (distance as i8)) as i8,
            (bishop_delta(direction).1 * (distance as i8)) as i8,
        ),
{
    let (d_file, d_rank): (i8, i8) = if direction == 0 {
        (1, 1)
    } else if direction == 1 {
        (-1, 1)
    } else if direction == 2 {
        (-1, -1)
    } else if direction == 3 {
        (1, -1)
    } else {
        return Err(ChessErrors::InvalidDirectionSelected(direction));
    };
    let magnitude = distance as i8;
    board_location.generate_moved_location_checked(d_file * magnitude, d_rank * magnitude)
}

/// Rook slide along direction `direction` (0..4) by `distance` squares.
pub fn generate_rook_movement(board_location: BoardLocation, direction: u8, distance: u8) -> (r:
    Result<BoardLocation, ChessErrors>)
    requires
        board_location.binary_location != 0,
        direction < 4 ==> scaled_move_defined(board_location, rook_delta(direction), distance),
    ensures
        direction >= 4 ==> r == Err::<BoardLocation, ChessErrors>(
            ChessErrors::InvalidDirectionSelected(direction),
        ),
        direction < 4 ==> r == board_location.checked_move(
            (rook_delta(direction).0 * (distance as i8)) as i8,
            (rook_delta(direction).1 * (distance as i8)) as i8,
        ),
{
    let (d_file, d_rank): (i8, i8) = if direction == 0 {
        (1, 0)
    } else if direction == 1 {
        (0, 1)
    } else if direction == 2 {
        (-1, 0)
    } else if direction == 3 {
        (0, -1)
    } else {
        return Err(ChessErrors::InvalidDirectionSelected(direction));
    };
    let magnitude = distance as i8;
    board_location.generate_moved_location_checked(d_file * magnitude, d_rank * magnitude)
}

/// King step number `direction` (0..8).
pub fn generate_king_movement(board_location: BoardLocation, direction: u8) -> (r: Result<
    BoardLocation,
    ChessErrors,
>)
    requires
        board_location.binary_location != 0,
    ensures
        direction >= 8 ==> r == Err::<BoardLocation, ChessErrors>(
            ChessErrors::InvalidDirectionSelected(direction),
        ),
        direction < 8 ==> r == board_location.checked_move(
            king_delta(direction).0 as i8,
            king_delta(direction).1 as i8,
        ),
{
    let (d_file, d_rank): (i8, i8) = if direction == 0 {
        (1, 0)
    } else if direction == 1 {
        (1, 1)
    } else if direction == 2 {
        (0, 1)
    } else if direction == 3 {
        (-1, 1)
    } else if direction == 4 {
        (-1, 0)
    } else if direction == 5 {
        (-1, -1)
    } else if direction == 6 {
        (0, -1)
    } else if direction == 7 {
        (1, -1)
    } else {
        return Err(ChessErrors::InvalidDirectionSelected(direction));
    };
    board_location.generate_moved_location_checked(d_file, d_rank)
}

} // verus!
