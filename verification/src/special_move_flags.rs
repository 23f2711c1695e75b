//! Castling rights and the en-passant square as the square-vector move
//! generators read them.

use vstd::prelude::*;
use crate::board_location::BoardLocation;
use crate::chess_types::{CASTLE_LIGHT_KINGSIDE, CASTLE_LIGHT_QUEENSIDE, CASTLE_DARK_KINGSIDE, CASTLE_DARK_QUEENSIDE};
use crate::game_state::{GameState, GameStateView};

verus! {

/// Castling rights of each side and the square a double-stepping pawn
/// left behind.
#[derive(Clone, Copy, Debug)]
pub struct SpecialMoveFlags {
    pub can_castle_king_light: bool,
    pub can_castle_queen_light: bool,
    pub can_castle_king_dark: bool,
    pub can_castle_queen_dark: bool,
    pub en_passant_location: Option<BoardLocation>,
}

/// The flags of a position view.
pub open spec fn flags_of(g: GameStateView) -> SpecialMoveFlags {
    SpecialMoveFlags {
        can_castle_king_light: g.castling_rights & CASTLE_LIGHT_KINGSIDE != 0,
        can_castle_queen_light: g.castling_rights & CASTLE_LIGHT_QUEENSIDE != 0,
        can_castle_king_dark: g.castling_rights & CASTLE_DARK_KINGSIDE != 0,
        can_castle_queen_dark: g.castling_rights & CASTLE_DARK_QUEENSIDE != 0,
        en_passant_location: match g.en_passant_square {
            Some(e) => Some(BoardLocation::at((e % 8) as int, (e / 8) as int)),
            None => None,
        },
    }
}

impl SpecialMoveFlags {
    /// The flags of a position: its castling-right bits, and its en-passant
    /// square as a location.
    pub fn from(game: &GameState) -> (r: Self)
        requires
            game.en_passant_square matches Some(e) ==> e < 64,
        ensures
            r.can_castle_king_light == (game.castling_rights & CASTLE_LIGHT_KINGSIDE != 0),
            r.can_castle_queen_light == (game.castling_rights & CASTLE_LIGHT_QUEENSIDE != 0),
            r.can_castle_king_dark == (game.castling_rights & CASTLE_DARK_KINGSIDE != 0),
            r.can_castle_queen_dark == (game.castling_rights & CASTLE_DARK_QUEENSIDE != 0),
            r.en_passant_location == match game.en_passant_square {
                Some(e) => Some(BoardLocation::at((e % 8) as int, (e / 8) as int)),
                None => None,
            },
            r == flags_of(game@),
    {
        let rights = game.castling_rights;
        let en_passant_location = match game.en_passant_square {
            Some(e) => match BoardLocation::from_file_rank(e % 8, e / 8) {
                Ok(loc) => Some(loc),
                Err(_) => None,
            },
            None => None,
        };
        SpecialMoveFlags {
            can_castle_king_light: rights & CASTLE_LIGHT_KINGSIDE != 0,
            can_castle_queen_light: rights & CASTLE_LIGHT_QUEENSIDE != 0,
            can_castle_king_dark: rights & CASTLE_DARK_KINGSIDE != 0,
            can_castle_queen_dark: rights & CASTLE_DARK_QUEENSIDE != 0,
            en_passant_location,
        }
    }
}

} // verus!
