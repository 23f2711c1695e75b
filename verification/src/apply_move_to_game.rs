//! Applying a square-vector move description to a position: the piece
//! movements, captures, promotion, castling rook, en-passant square,
//! castling rights and clocks, with and without the check filter.

use vstd::prelude::*;
use crate::board_location::{BoardLocation, top_bit};
use crate::chess_errors::ChessErrors;
use crate::chess_types::{Color, PieceKind, CASTLE_LIGHT_KINGSIDE, CASTLE_LIGHT_QUEENSIDE, CASTLE_DARK_KINGSIDE, CASTLE_DARK_QUEENSIDE};
use crate::collision_masks::rank_major;
use crate::game_state::{GameState, GameStateView};
use crate::legal_move_apply::{remove_piece, add_piece};
use crate::legal_move_checks::{is_king_in_check, king_in_check};
use crate::move_description::{MoveDescription, MoveTypes, MoveVector};
use crate::piece_record::{PieceRecord, record_at, single_square, view_piece_at_location};
use crate::piece_team::PieceTeam;
use crate::zobrist::{compute_zobrist_key, compute_pawn_zobrist_key, zobrist_of, pawn_zobrist_of};

verus! {

broadcast use vstd::std_specs::bits::axiom_u64_leading_zeros;

/// The board square (rank-major) of a single-square location.
pub open spec fn square_of(loc: BoardLocation) -> u64 {
    rank_major(top_bit(loc.binary_location) as u64)
}

/// The side of a team.
pub open spec fn side_of_team(t: PieceTeam) -> Color {
    match t {
        PieceTeam::Light => Color::Light,
        PieceTeam::Dark => Color::Dark,
    }
}

/// Move the piece on `from` to `to`, removing whatever stood on `to`;
/// an error when `from` is empty. Gives the removed piece.
pub open spec fn moved_over(v: GameStateView, from: BoardLocation, to: BoardLocation) -> Result<(GameStateView, Option<PieceRecord>), ChessErrors> {
    match record_at(v, from) {
        None => Err(ChessErrors::CannotRemoveFromEmptyLocation(from)),
        Some(p) => {
            let cap = record_at(v, to);
            let v1 = match cap {
                Some(c) => v.removed(side_of_team(c.team), c.class, square_of(to)),
                None => v,
            };
            Ok((v1.removed(side_of_team(p.team), p.class, square_of(from)).added(side_of_team(p.team), p.class, square_of(to)), cap))
        },
    }
}

/// Remove the piece on `loc`; an error when it is empty.
pub open spec fn removed_at(v: GameStateView, loc: BoardLocation) -> Result<GameStateView, ChessErrors> {
    match record_at(v, loc) {
        Some(c) => Ok(v.removed(side_of_team(c.team), c.class, square_of(loc))),
        None => Err(ChessErrors::CannotRemoveFromEmptyLocation(loc)),
    }
}

/// Change the kind of the piece on `loc`; an error when it is empty.
pub open spec fn retyped(v: GameStateView, loc: BoardLocation, class: PieceKind) -> Result<GameStateView, ChessErrors> {
    match record_at(v, loc) {
        Some(p) => Ok(v.removed(side_of_team(p.team), p.class, square_of(loc)).added(side_of_team(p.team), class, square_of(loc))),
        None => Err(ChessErrors::TryToViewOrEditEmptySquare(loc)),
    }
}

/// The piece movements of a move, with which castling rights it gives up
/// (king side, queen side) and whether it captured (regular moves and
/// promotions only).
pub open spec fn moved_pieces(v: GameStateView, mv: MoveDescription) -> Result<(GameStateView, bool, bool, bool), ChessErrors> {
    let from = mv.vector.piece_at_start.location;
    let to = mv.vector.destination;
    match mv.move_type {
        MoveTypes::Regular => match moved_over(v, from, to) {
            Err(e) => Err(e),
            Ok((v2, cap)) => match record_at(v2, to) {
                None => Err(ChessErrors::TryToViewOrEditEmptySquare(to)),
                Some(fp) => {
                    let king = fp.class == PieceKind::King;
                    let rook = fp.class == PieceKind::Rook;
                    let home = (from.rank_of() == 7 && fp.team == PieceTeam::Dark) || (from.rank_of() == 0 && fp.team == PieceTeam::Light);
                    let queen_side = king || (rook && from.file_of() == 0 && home);
                    let king_side = king || (rook && from.file_of() == 7 && home);
                    Ok((v2, king_side, queen_side, cap is Some))
                },
            },
        },
        MoveTypes::Castling(rook) => match moved_over(v, from, to) {
            Err(e) => Err(e),
            Ok((v2, _)) => match moved_over(v2, rook.piece_at_start.location, rook.destination) {
                Err(e) => Err(e),
                Ok((v3, _)) => Ok((v3, true, true, false)),
            },
        },
        MoveTypes::DoubleStep(_) => match moved_over(v, from, to) {
            Err(e) => Err(e),
            Ok((v2, _)) => Ok((v2, false, false, false)),
        },
        MoveTypes::EnPassant => match removed_at(v, mv.capture_status.unwrap().location) {
            Err(e) => Err(e),
            Ok(v1) => match moved_over(v1, from, to) {
                Err(e) => Err(e),
                Ok((v2, _)) => Ok((v2, false, false, false)),
            },
        },
        MoveTypes::Promote(promoted) => match moved_over(v, from, to) {
            Err(e) => Err(e),
            Ok((v2, cap)) => match retyped(v2, to, promoted.class) {
                Err(e) => Err(e),
                Ok(v3) => Ok((v3, false, false, cap is Some)),
            },
        },
    }
}

/// Castling rights after the mover of `team` gives up the flagged sides.
pub open spec fn rights_kept(r: u8, team: PieceTeam, king_side: bool, queen_side: bool) -> u8 {
    let k: u8 = if team == PieceTeam::Dark { CASTLE_DARK_KINGSIDE } else { CASTLE_LIGHT_KINGSIDE };
    let q: u8 = if team == PieceTeam::Dark { CASTLE_DARK_QUEENSIDE } else { CASTLE_LIGHT_QUEENSIDE };
    let r1: u8 = if king_side { r & !k } else { r };
    if queen_side { r1 & !q } else { r1 }
}

/// The position after a move, unchecked: its pieces moved; the
/// en-passant square set by a double step and cleared otherwise; castling
/// rights given up by king and rook moves and by castling; the halfmove
/// clock reset by pawn moves and captures and counted up otherwise; the
/// move number counted up after Dark; the other side to move; keys
/// recomputed.
pub open spec fn unchecked_applied(v: GameStateView, mv: MoveDescription) -> Result<GameStateView, ChessErrors> {
    match moved_pieces(v, mv) {
        Err(e) => Err(e),
        Ok((b, king_side, queen_side, capture)) => {
            let team = mv.vector.piece_at_start.team;
            let w = GameStateView {
                occupancy_all: b.occupancy_by_color[0] | b.occupancy_by_color[1],
                en_passant_square: match mv.move_type {
                    MoveTypes::DoubleStep(behind) => Some(square_of(behind) as u8),
                    _ => None,
                },
                castling_rights: rights_kept(v.castling_rights, team, king_side, queen_side),
                halfmove_clock: if mv.vector.piece_at_start.class == PieceKind::Pawn || capture { 0 } else { (v.halfmove_clock + 1) as u16 },
                fullmove_number: if team == PieceTeam::Dark { (v.fullmove_number + 1) as u16 } else { v.fullmove_number },
                side_to_move: if team == PieceTeam::Dark { Color::Light } else { Color::Dark },
                ..b
            };
            Ok(GameStateView { zobrist_key: zobrist_of(w), pawn_zobrist_key: pawn_zobrist_of(w), ..w })
        },
    }
}

/// Every location the move touches is a single square, and an en-passant
/// move names its captured piece.
pub open spec fn move_locations_ok(mv: MoveDescription) -> bool {
    &&& single_square(mv.vector.piece_at_start.location)
    &&& single_square(mv.vector.destination)
    &&& mv.move_type matches MoveTypes::Castling(rook) ==> single_square(rook.piece_at_start.location) && single_square(rook.destination)
    &&& mv.move_type matches MoveTypes::DoubleStep(behind) ==> single_square(behind)
    &&& mv.move_type is EnPassant ==> mv.capture_status is Some && single_square(mv.capture_status.unwrap().location)
}

/// The clocks have room for the counts the move adds.
pub open spec fn clocks_have_room(v: GameStateView, mv: MoveDescription) -> bool {
    let capture = (mv.move_type is Regular || mv.move_type is Promote) && record_at(v, mv.vector.destination) is Some;
    &&& (mv.vector.piece_at_start.class != PieceKind::Pawn && !capture) ==> v.halfmove_clock < u16::MAX
    &&& mv.vector.piece_at_start.team == PieceTeam::Dark ==> v.fullmove_number < u16::MAX
}

/// The board square of a single-square location.
fn square_index(loc: BoardLocation) -> (r: u8)
    requires
        loc.binary_location != 0,
    ensures
        r as u64 == square_of(loc),
        r < 64,
{
    let (file, rank) = loc.get_file_rank();
    8 * rank + file
}

/// The side of a team.
fn side_for(t: PieceTeam) -> (r: Color)
    ensures
        r == side_of_team(t),
{
    match t {
        PieceTeam::Light => Color::Light,
        PieceTeam::Dark => Color::Dark,
    }
}

/// Move the piece on `from` to `to`, removing whatever stood on `to`.
fn move_with_overwrite(game: &mut GameState, from: BoardLocation, to: BoardLocation) -> (r: Result<Option<PieceRecord>, ChessErrors>)
    requires
        single_square(from),
        single_square(to),
    ensures
        match moved_over(old(game)@, from, to) {
            Ok((v2, cap)) => r == Ok::<Option<PieceRecord>, ChessErrors>(cap) && final(game)@ == v2,
            Err(e) => r == Err::<Option<PieceRecord>, ChessErrors>(e) && final(game)@ == old(game)@,
        },
{
    let p = match view_piece_at_location(game, from) {
        Ok(p) => p,
        Err(_) => {
            return Err(ChessErrors::CannotRemoveFromEmptyLocation(from));
        },
    };
    let cap = match view_piece_at_location(game, to) {
        Ok(c) => Some(c),
        Err(_) => None,
    };
    let sf = square_index(from);
    let st = square_index(to);
    if let Some(c) = cap {
        remove_piece(game, side_for(c.team), c.class, st);
    }
    remove_piece(game, side_for(p.team), p.class, sf);
    add_piece(game, side_for(p.team), p.class, st);
    Ok(cap)
}

/// Remove the piece on `loc`.
fn remove_piece_at_location(game: &mut GameState, loc: BoardLocation) -> (r: Result<(), ChessErrors>)
    requires
        single_square(loc),
    ensures
        match removed_at(old(game)@, loc) {
            Ok(v1) => r is Ok && final(game)@ == v1,
            Err(e) => r == Err::<(), ChessErrors>(e) && final(game)@ == old(game)@,
        },
{
    let c = match view_piece_at_location(game, loc) {
        Ok(c) => c,
        Err(_) => {
            return Err(ChessErrors::CannotRemoveFromEmptyLocation(loc));
        },
    };
    remove_piece(game, side_for(c.team), c.class, square_index(loc));
    Ok(())
}

/// Change the kind of the piece on `loc`.
fn retype_piece_at_location(game: &mut GameState, loc: BoardLocation, class: PieceKind) -> (r: Result<(), ChessErrors>)
    requires
        single_square(loc),
    ensures
        match retyped(old(game)@, loc, class) {
            Ok(v1) => r is Ok && final(game)@ == v1,
            Err(e) => r == Err::<(), ChessErrors>(e) && final(game)@ == old(game)@,
        },
{
    let p = match view_piece_at_location(game, loc) {
        Ok(p) => p,
        Err(e) => {
            return Err(e);
        },
    };
    let sq = square_index(loc);
    remove_piece(game, side_for(p.team), p.class, sq);
    add_piece(game, side_for(p.team), class, sq);
    Ok(())
}

/// Apply a move without checking that it leaves the mover's king safe.
///
/// Fails when a square it moves a piece from, or a captured en-passant
/// pawn's square, is empty.
pub fn apply_move_to_game_unchecked(chess_move: &MoveDescription, game: &GameState) -> (r: Result<GameState, ChessErrors>)
    requires
        move_locations_ok(*chess_move),
        clocks_have_room(game@, *chess_move),
    ensures
        match unchecked_applied(game@, *chess_move) {
            Ok(w) => r is Ok && r.unwrap()@ == w,
            Err(e) => r == Err::<GameState, ChessErrors>(e),
        },
{
    let mut result = game.clone();
    let mut remove_castling_kingside_rights = false;
    let mut remove_castling_queenside_rights = false;
    let mut capture_flag = false;
    let moving_a_pawn = matches!(chess_move.vector.piece_at_start.class, PieceKind::Pawn);
    let from = chess_move.vector.piece_at_start.location;
    let to = chess_move.vector.destination;
    let ghost v = game@;
    match chess_move.move_type {
        MoveTypes::Regular => {
            let captured_piece = move_with_overwrite(&mut result, from, to)?;
            capture_flag = captured_piece.is_some();
            let future_piece = view_piece_at_location(&result, to)?;
            if matches!(future_piece.class, PieceKind::King) {
                remove_castling_kingside_rights = true;
                remove_castling_queenside_rights = true;
            }
            if matches!(future_piece.class, PieceKind::Rook) {
                let (start_file, start_rank) = from.get_file_rank();
                if start_file == 0 {
                    if start_rank == 7 && matches!(future_piece.team, PieceTeam::Dark) {
                        remove_castling_queenside_rights = true;
                    } else if start_rank == 0 && matches!(future_piece.team, PieceTeam::Light) {
                        remove_castling_queenside_rights = true;
                    }
                } else if start_file == 7 {
                    if start_rank == 7 && matches!(future_piece.team, PieceTeam::Dark) {
                        remove_castling_kingside_rights = true;
                    } else if start_rank == 0 && matches!(future_piece.team, PieceTeam::Light) {
                        remove_castling_kingside_rights = true;
                    }
                }
            }
        },
        MoveTypes::Castling(rook_vector) => {
            let _ = move_with_overwrite(&mut result, from, to)?;
            let _ = move_with_overwrite(&mut result, rook_vector.piece_at_start.location, rook_vector.destination)?;
            remove_castling_kingside_rights = true;
            remove_castling_queenside_rights = true;
        },
        MoveTypes::DoubleStep(_) => {
            let _ = move_with_overwrite(&mut result, from, to)?;
        },
        MoveTypes::EnPassant => {
            let victim = chess_move.capture_status.unwrap();
            remove_piece_at_location(&mut result, victim.location)?;
            let _ = move_with_overwrite(&mut result, from, to)?;
        },
        MoveTypes::Promote(promoted_piece) => {
            let captured_piece = move_with_overwrite(&mut result, from, to)?;
            capture_flag = captured_piece.is_some();
            retype_piece_at_location(&mut result, to, promoted_piece.class)?;
        },
    }
    let ghost moved = moved_pieces(v, *chess_move);
    assert(moved == Ok::<(GameStateView, bool, bool, bool), ChessErrors>((result@, remove_castling_kingside_rights, remove_castling_queenside_rights, capture_flag)));
    result.en_passant_square = match chess_move.move_type {
        MoveTypes::DoubleStep(behind_pawn) => Some(square_index(behind_pawn)),
        _ => None,
    };
    let team = chess_move.vector.piece_at_start.team;
    if remove_castling_kingside_rights {
        if matches!(team, PieceTeam::Dark) {
            result.castling_rights = result.castling_rights & !CASTLE_DARK_KINGSIDE;
        } else {
            result.castling_rights = result.castling_rights & !CASTLE_LIGHT_KINGSIDE;
        }
    }
    if remove_castling_queenside_rights {
        if matches!(team, PieceTeam::Dark) {
            result.castling_rights = result.castling_rights & !CASTLE_DARK_QUEENSIDE;
        } else {
            result.castling_rights = result.castling_rights & !CASTLE_LIGHT_QUEENSIDE;
        }
    }
    if moving_a_pawn || capture_flag {
        result.halfmove_clock = 0;
    } else {
        result.halfmove_clock = result.halfmove_clock + 1;
    }
    if matches!(team, PieceTeam::Dark) {
        result.fullmove_number = result.fullmove_number + 1;
        result.side_to_move = Color::Light;
    } else {
        result.side_to_move = Color::Dark;
    }
    result.occupancy_all = result.occupancy_by_color[0] | result.occupancy_by_color[1];
    result.zobrist_key = compute_zobrist_key(&result);
    result.pawn_zobrist_key = compute_pawn_zobrist_key(&result);
    proof {
        assert(result@ =~= unchecked_applied(v, *chess_move).unwrap());
    }
    Ok(result)
}


/// The squares a castling king passes, by its destination: c1 and d1,
/// f1 and g1, c8 and d8, otherwise f8 and g8.
pub open spec fn passing_squares(dest: BoardLocation) -> (BoardLocation, BoardLocation) {
    if dest.binary_location == BoardLocation::at(2, 0).binary_location {
        (BoardLocation::at(2, 0), BoardLocation::at(3, 0))
    } else if dest.binary_location == BoardLocation::at(6, 0).binary_location {
        (BoardLocation::at(5, 0), BoardLocation::at(6, 0))
    } else if dest.binary_location == BoardLocation::at(2, 7).binary_location {
        (BoardLocation::at(2, 7), BoardLocation::at(3, 7))
    } else {
        (BoardLocation::at(5, 7), BoardLocation::at(6, 7))
    }
}

/// The king of `mv` stepping alone to `square`.
pub open spec fn king_step(mv: MoveDescription, square: BoardLocation) -> MoveDescription {
    MoveDescription {
        vector: MoveVector { piece_at_start: mv.vector.piece_at_start, destination: square },
        move_type: MoveTypes::Regular,
        capture_status: None,
    }
}

/// A castling king that steps alone onto `square` is attacked there (for
/// the side to move of `v`), or the step fails.
pub open spec fn passing_check(v: GameStateView, mv: MoveDescription, square: BoardLocation) -> Result<bool, ChessErrors> {
    match unchecked_applied(v, king_step(mv, square)) {
        Err(e) => Err(e),
        Ok(t) => Ok(king_in_check(t, v.side_to_move)),
    }
}

/// Castling is refused: the king is in check, or is attacked stepping
/// alone onto the first or the second square it passes (in that order),
/// or such a step fails.
pub open spec fn castling_blocked(v: GameStateView, mv: MoveDescription) -> Result<bool, ChessErrors> {
    let (p1, p2) = passing_squares(mv.vector.destination);
    if king_in_check(v, v.side_to_move) {
        Ok(true)
    } else {
        match passing_check(v, mv, p1) {
            Err(e) => Err(e),
            Ok(true) => Ok(true),
            Ok(false) => passing_check(v, mv, p2),
        }
    }
}

/// The position after a move unless the side that moved is in check
/// afterwards.
pub open spec fn safe_applied(v: GameStateView, mv: MoveDescription) -> Result<Option<GameStateView>, ChessErrors> {
    match unchecked_applied(v, mv) {
        Err(e) => Err(e),
        Ok(w) => if king_in_check(w, w.side_to_move.other()) {
            Ok(None)
        } else {
            Ok(Some(w))
        },
    }
}

/// The position after a move when the mover's king is safe: castling is
/// refused from check and through or onto an attacked square, and any
/// move is refused when the side that moved is in check afterwards.
pub open spec fn filtered_applied(v: GameStateView, mv: MoveDescription) -> Result<Option<GameStateView>, ChessErrors> {
    if mv.move_type is Castling {
        match castling_blocked(v, mv) {
            Err(e) => Err(e),
            Ok(true) => Ok(None),
            Ok(false) => safe_applied(v, mv),
        }
    } else {
        safe_applied(v, mv)
    }
}

/// Whether the castling king is attacked when stepping alone onto
/// `square`.
fn passing_square_attacked(chess_move: &MoveDescription, game: &GameState, square: BoardLocation) -> (r: Result<bool, ChessErrors>)
    requires
        single_square(chess_move.vector.piece_at_start.location),
        single_square(square),
        chess_move.vector.piece_at_start.class != PieceKind::Pawn ==> game.halfmove_clock < u16::MAX,
        chess_move.vector.piece_at_start.team == PieceTeam::Dark ==> game.fullmove_number < u16::MAX,
    ensures
        r == passing_check(game@, *chess_move, square),
{
    let step = MoveDescription {
        vector: MoveVector { piece_at_start: chess_move.vector.piece_at_start, destination: square },
        move_type: MoveTypes::Regular,
        capture_status: None,
    };
    let temp_game = apply_move_to_game_unchecked(&step, game)?;
    Ok(is_king_in_check(&temp_game, game.side_to_move))
}

/// Whether castling is refused: from check, or through or onto an
/// attacked square.
fn castling_refused(chess_move: &MoveDescription, game: &GameState) -> (r: Result<bool, ChessErrors>)
    requires
        single_square(chess_move.vector.piece_at_start.location),
        chess_move.vector.piece_at_start.class != PieceKind::Pawn ==> game.halfmove_clock < u16::MAX,
        chess_move.vector.piece_at_start.team == PieceTeam::Dark ==> game.fullmove_number < u16::MAX,
    ensures
        r == castling_blocked(game@, *chess_move),
{
    if is_king_in_check(game, game.side_to_move) {
        return Ok(true);
    }
    let dest = chess_move.vector.destination.binary_location;
    let c1 = BoardLocation::from_file_rank(2, 0)?;
    let g1 = BoardLocation::from_file_rank(6, 0)?;
    let c8 = BoardLocation::from_file_rank(2, 7)?;
    let (first, second) = if dest == c1.binary_location {
        (BoardLocation::from_file_rank(2, 0)?, BoardLocation::from_file_rank(3, 0)?)
    } else if dest == g1.binary_location {
        (BoardLocation::from_file_rank(5, 0)?, BoardLocation::from_file_rank(6, 0)?)
    } else if dest == c8.binary_location {
        (BoardLocation::from_file_rank(2, 7)?, BoardLocation::from_file_rank(3, 7)?)
    } else {
        (BoardLocation::from_file_rank(5, 7)?, BoardLocation::from_file_rank(6, 7)?)
    };
    proof {
        lemma_single_at(2, 0);
        lemma_single_at(3, 0);
        lemma_single_at(5, 0);
        lemma_single_at(6, 0);
        lemma_single_at(2, 7);
        lemma_single_at(3, 7);
        lemma_single_at(5, 7);
        lemma_single_at(6, 7);
    }
    if passing_square_attacked(chess_move, game, first)? {
        return Ok(true);
    }
    passing_square_attacked(chess_move, game, second)
}

/// The location at a file and rank on the board is a single square.
pub proof fn lemma_single_at(f: int, r: int)
    requires
        0 <= f < 8,
        0 <= r < 8,
    ensures
        single_square(BoardLocation::at(f, r)),
{
    crate::board_location::lemma_location_name_roundtrip(f, r);
}

/// Apply a move, refusing it (`None`) when it leaves the mover's king in
/// check; castling is also refused from check and through an attacked
/// square.
pub fn apply_move_to_game_filtering_no_friendly_check(chess_move: &MoveDescription, game: &GameState) -> (r: Result<Option<GameState>, ChessErrors>)
    requires
        move_locations_ok(*chess_move),
        clocks_have_room(game@, *chess_move),
        chess_move.move_type is Castling ==> (chess_move.vector.piece_at_start.class != PieceKind::Pawn
            ==> game.halfmove_clock < u16::MAX),
    ensures
        match filtered_applied(game@, *chess_move) {
            Ok(Some(w)) => r is Ok && r.unwrap() is Some && r.unwrap().unwrap()@ == w,
            Ok(None) => r is Ok && r.unwrap() is None,
            Err(e) => r == Err::<Option<GameState>, ChessErrors>(e),
        },
{
    if matches!(chess_move.move_type, MoveTypes::Castling(_)) {
        if castling_refused(chess_move, game)? {
            return Ok(None);
        }
    }
    let mut candidate_game = apply_move_to_game_unchecked(chess_move, game)?;
    let turn_cache = candidate_game.side_to_move;
    let mover = turn_cache.opposite();
    if is_king_in_check(&candidate_game, mover) {
        Ok(None)
    } else {
        Ok(Some(candidate_game))
    }
}

} // verus!
