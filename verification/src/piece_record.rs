//! A piece as the square-vector generators see it: its kind, its square and
//! its side, read off a position.

use vstd::prelude::*;
use crate::board_location::{BoardLocation, top_bit};
use crate::chess_errors::ChessErrors;
use crate::chess_types::{Color, PieceKind};
use crate::collision_masks::rank_major;
use crate::game_state::{GameState, GameStateView};
use crate::legal_move_shared::piece_on_square_any;
use crate::piece_team::PieceTeam;

verus! {

broadcast use vstd::std_specs::bits::axiom_u64_leading_zeros;

/// A piece: its kind, where it stands and which side it belongs to.
#[derive(Debug, Clone, Copy)]
pub struct PieceRecord {
    pub class: PieceKind,
    pub location: BoardLocation,
    pub team: PieceTeam,
}

/// The team of a side.
pub open spec fn team_of(c: Color) -> PieceTeam {
    match c {
        Color::Light => PieceTeam::Light,
        Color::Dark => PieceTeam::Dark,
    }
}

/// The location marks exactly one square.
pub open spec fn single_square(loc: BoardLocation) -> bool {
    loc.binary_location != 0 && loc.binary_location == 1u64 << (top_bit(loc.binary_location) as u64)
}

/// The piece standing on a single-square location, if any.
pub open spec fn record_at(g: GameStateView, loc: BoardLocation) -> Option<PieceRecord> {
    if !single_square(loc) {
        None
    } else {
        match g.occupant(rank_major(top_bit(loc.binary_location) as u64)) {
            Some((c, k)) => Some(PieceRecord { class: k, location: loc, team: team_of(c) }),
            None => None,
        }
    }
}

/// The piece on `location`; an error when the location is not a single
/// square or nothing stands there.
pub fn view_piece_at_location(game: &GameState, location: BoardLocation) -> (r: Result<PieceRecord, ChessErrors>)
    ensures
        record_at(game@, location) matches Some(p) ==> r == Ok::<PieceRecord, ChessErrors>(p),
        record_at(game@, location) is None ==> r == Err::<PieceRecord, ChessErrors>(
            ChessErrors::TryToViewOrEditEmptySquare(location),
        ),
{
    if location.binary_location == 0 {
        return Err(ChessErrors::TryToViewOrEditEmptySquare(location));
    }
    let (file, rank) = location.get_file_rank();
    let t: u64 = 8 * file as u64 + rank as u64;
    assert(t == top_bit(location.binary_location));
    if location.binary_location != 1u64 << t {
        return Err(ChessErrors::TryToViewOrEditEmptySquare(location));
    }
    let sq: u8 = 8 * rank + file;
    assert(sq as u64 == rank_major(t));
    match piece_on_square_any(game, sq) {
        Some((Color::Light, k)) => Ok(PieceRecord { class: k, location, team: PieceTeam::Light }),
        Some((Color::Dark, k)) => Ok(PieceRecord { class: k, location, team: PieceTeam::Dark }),
        None => Err(ChessErrors::TryToViewOrEditEmptySquare(location)),
    }
}

} // verus!
