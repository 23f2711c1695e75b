//! Pawn move generation on (file, rank) coordinates: the pawn's steps and
//! diagonal captures up to the first collision, with promotions and the
//! square a double step leaves behind.

use vstd::prelude::*;
use crate::chess_types::{Color, PieceKind};
use crate::game_state::{GameState, GameStateView};
use crate::legal_move_shared::piece_on_square_any;

verus! {

/// A square as (file, rank), each 0..8 on the board.
pub type SquareCoord = (i8, i8);

/// The errors of coordinate move generation.
#[derive(Debug, Clone, Copy, PartialEq, Eq, Structural)]
pub enum CoordMoveError {
    /// A coordinate step left the board.
    OutOfBounds,
    /// The start square holds no piece of the generator's kind.
    MoveStartLocationIsNotValidPieceType,
}

/// What is special about a generated move.
#[derive(Clone, Copy, Debug)]
pub enum MoveSpecialness {
    /// Moving or capturing.
    Regular,
    /// Promotion to the given kind.
    Promote(PieceKind),
    /// A double step; the square behind the pawn.
    EnPassant(SquareCoord),
    /// Castling; the rook's square.
    Castling(SquareCoord),
}

/// What the destination square holds.
#[derive(Clone, Copy, Debug, PartialEq, Eq, Structural)]
pub enum CollisionType {
    /// An empty square.
    NoCollision,
    /// A piece of the moving side.
    OwnSidePiece,
    /// An opposing piece other than the king.
    OtherSideRegularPiece,
    /// The opposing king.
    OtherSideKingPiece,
}

/// A generated move on coordinates.
#[derive(Clone, Copy, Debug)]
pub struct ChessMoveDescription {
    pub start: SquareCoord,
    pub stop: SquareCoord,
    pub move_type: MoveSpecialness,
    pub collision_type: CollisionType,
}

/// The coordinate is on the board.
pub open spec fn on_board(loc: SquareCoord) -> bool {
    0 <= loc.0 < 8 && 0 <= loc.1 < 8
}

/// The piece on a coordinate (none off the board).
pub open spec fn piece_at(g: GameStateView, loc: SquareCoord) -> Option<(Color, PieceKind)> {
    if on_board(loc) {
        g.occupant((8 * loc.1 + loc.0) as u64)
    } else {
        None
    }
}

/// Stepping `(d_file, d_rank)` from a coordinate, when that stays on the
/// board.
pub open spec fn stepped(loc: SquareCoord, d_file: int, d_rank: int) -> Result<SquareCoord, CoordMoveError> {
    if 0 <= loc.0 + d_file < 8 && 0 <= loc.1 + d_rank < 8 {
        Ok(((loc.0 + d_file) as i8, (loc.1 + d_rank) as i8))
    } else {
        Err(CoordMoveError::OutOfBounds)
    }
}

/// The forward rank direction of the side to move.
pub open spec fn forward_of(c: Color) -> int {
    if c == Color::Dark {
        -1
    } else {
        1
    }
}

/// The moves of a pawn from `start` to `stop`: none when moving straight
/// onto a piece, diagonally onto an own piece or diagonally onto an empty
/// square, or when a two-rank step jumps a piece; the four promotions on
/// the last rank; otherwise one move, marking a two-rank step with the
/// square it passes.
pub open spec fn pawn_moves_to(g: GameStateView, start: SquareCoord, stop: SquareCoord) -> Seq<ChessMoveDescription> {
    let turn = g.side_to_move;
    let target = piece_at(g, stop);
    let blocked = match target {
        Some((c, _)) => start.0 == stop.0 || c == turn,
        None => start.0 != stop.0,
    };
    let collision = match target {
        Some((_, k)) => if k == PieceKind::King {
            CollisionType::OtherSideKingPiece
        } else {
            CollisionType::OtherSideRegularPiece
        },
        None => CollisionType::NoCollision,
    };
    let last_rank = (turn == Color::Light && stop.1 == 7) || (turn == Color::Dark && stop.1 == 0);
    let passed: SquareCoord = (start.0, ((start.1 + stop.1) / 2) as i8);
    let two_ranks = stop.1 - start.1 == 2 || start.1 - stop.1 == 2;
    if blocked {
        Seq::empty()
    } else if last_rank {
        seq![
            ChessMoveDescription { start, stop, move_type: MoveSpecialness::Promote(PieceKind::Queen), collision_type: collision },
            ChessMoveDescription { start, stop, move_type: MoveSpecialness::Promote(PieceKind::Rook), collision_type: collision },
            ChessMoveDescription { start, stop, move_type: MoveSpecialness::Promote(PieceKind::Bishop), collision_type: collision },
            ChessMoveDescription { start, stop, move_type: MoveSpecialness::Promote(PieceKind::Knight), collision_type: collision },
        ]
    } else if two_ranks && piece_at(g, passed) is Some {
        Seq::empty()
    } else if two_ranks {
        seq![ChessMoveDescription { start, stop, move_type: MoveSpecialness::EnPassant(passed), collision_type: collision }]
    } else {
        seq![ChessMoveDescription { start, stop, move_type: MoveSpecialness::Regular, collision_type: collision }]
    }
}

/// The pawn moves toward a step, when the step stays on the board.
pub open spec fn pawn_moves_by(g: GameStateView, start: SquareCoord, d_file: int, d_rank: int) -> Seq<ChessMoveDescription> {
    match stepped(start, d_file, d_rank) {
        Ok(stop) => pawn_moves_to(g, start, stop),
        Err(_) => Seq::empty(),
    }
}

/// The pawn moves from `start`: right diagonal, left diagonal, one step
/// ahead, then two steps ahead from the starting rank.
pub open spec fn pawn_moves_from(g: GameStateView, start: SquareCoord) -> Seq<ChessMoveDescription> {
    let f = forward_of(g.side_to_move);
    let home: int = if g.side_to_move == Color::Dark { 6 } else { 1 };
    pawn_moves_by(g, start, 1, f) + pawn_moves_by(g, start, -1, f) + pawn_moves_by(g, start, 0, f) + if start.1 == home {
        pawn_moves_by(g, start, 0, 2 * f)
    } else {
        Seq::empty()
    }
}

/// Step a coordinate by `(d_file, d_rank)`; an error off the board.
pub fn move_board_location(loc: &SquareCoord, d_file: i8, d_rank: i8) -> (r: Result<SquareCoord, CoordMoveError>)
    ensures
        r == stepped(*loc, d_file as int, d_rank as int),
{
    let f: i16 = loc.0 as i16 + d_file as i16;
    let k: i16 = loc.1 as i16 + d_rank as i16;
    if 0 <= f && f < 8 && 0 <= k && k < 8 {
        Ok((f as i8, k as i8))
    } else {
        Err(CoordMoveError::OutOfBounds)
    }
}

/// The piece on a coordinate.
pub(crate) fn view_at(game: &GameState, loc: &SquareCoord) -> (r: Option<(Color, PieceKind)>)
    ensures
        r == piece_at(game@, *loc),
{
    if 0 <= loc.0 && loc.0 < 8 && 0 <= loc.1 && loc.1 < 8 {
        let sq: u8 = (8 * loc.1 + loc.0) as u8;
        piece_on_square_any(game, sq)
    } else {
        None
    }
}

/// Whether a move creates check; this generation treats every move as
/// creating one.
pub fn does_move_create_check(game: &GameState, candidate_move: &ChessMoveDescription) -> (r: bool)
    ensures
        r,
{
    true
}

/// The forward rank direction of the side to move.
fn get_forward_direction(game: &GameState) -> (r: i8)
    ensures
        r == forward_of(game.side_to_move),
{
    match game.side_to_move {
        Color::Dark => -1,
        Color::Light => 1,
    }
}

/// Append the pawn moves from `start` to `stop`.
fn pawn_move_helper(game: &GameState, start: &SquareCoord, stop: &SquareCoord, result: &mut Vec<ChessMoveDescription>)
    requires
        on_board(*start),
        on_board(*stop),
    ensures
        final(result)@ == old(result)@ + pawn_moves_to(game@, *start, *stop),
{
    let mut collision_type = CollisionType::NoCollision;
    if let Some((color, class)) = view_at(game, stop) {
        if start.0 == stop.0 {
            assert(pawn_moves_to(game@, *start, *stop) =~= Seq::<ChessMoveDescription>::empty());
            assert(final(result)@ =~= old(result)@ + Seq::<ChessMoveDescription>::empty());
            return;
        }
        collision_type = if game.side_to_move == color {
            assert(pawn_moves_to(game@, *start, *stop) =~= Seq::<ChessMoveDescription>::empty());
            assert(final(result)@ =~= old(result)@ + Seq::<ChessMoveDescription>::empty());
            return;
        } else {
            match class {
                PieceKind::King => CollisionType::OtherSideKingPiece,
                _ => CollisionType::OtherSideRegularPiece,
            }
        };
    } else {
        if start.0 != stop.0 {
            assert(pawn_moves_to(game@, *start, *stop) =~= Seq::<ChessMoveDescription>::empty());
            assert(final(result)@ =~= old(result)@ + Seq::<ChessMoveDescription>::empty());
            return;
        }
    }
    if (game.side_to_move == Color::Light && stop.1 == 7) || (game.side_to_move == Color::Dark && stop.1 == 0) {
        result.push(ChessMoveDescription { start: *start, stop: *stop, move_type: MoveSpecialness::Promote(PieceKind::Queen), collision_type });
        result.push(ChessMoveDescription { start: *start, stop: *stop, move_type: MoveSpecialness::Promote(PieceKind::Rook), collision_type });
        result.push(ChessMoveDescription { start: *start, stop: *stop, move_type: MoveSpecialness::Promote(PieceKind::Bishop), collision_type });
        result.push(ChessMoveDescription { start: *start, stop: *stop, move_type: MoveSpecialness::Promote(PieceKind::Knight), collision_type });
        assert(final(result)@ =~= old(result)@ + pawn_moves_to(game@, *start, *stop));
    } else {
        let move_type = if stop.1 - start.1 == 2 || start.1 - stop.1 == 2 {
            let en_passant_square: SquareCoord = (start.0, (start.1 + stop.1) / 2);
            if view_at(game, &en_passant_square).is_some() {
                assert(pawn_moves_to(game@, *start, *stop) =~= Seq::<ChessMoveDescription>::empty());
                assert(final(result)@ =~= old(result)@ + Seq::<ChessMoveDescription>::empty());
                return;
            }
            MoveSpecialness::EnPassant(en_passant_square)
        } else {
            MoveSpecialness::Regular
        };
        result.push(ChessMoveDescription { start: *start, stop: *stop, move_type, collision_type });
        assert(final(result)@ =~= old(result)@ + pawn_moves_to(game@, *start, *stop));
    }
}

/// Append the pawn moves toward one step from `start`, when the step stays
/// on the board.
fn pawn_step(game: &GameState, start: &SquareCoord, d_file: i8, d_rank: i8, result: &mut Vec<ChessMoveDescription>)
    requires
        on_board(*start),
    ensures
        final(result)@ == old(result)@ + pawn_moves_by(game@, *start, d_file as int, d_rank as int),
{
    if let Ok(stop) = move_board_location(start, d_file, d_rank) {
        pawn_move_helper(game, start, &stop, result);
    } else {
        assert(final(result)@ =~= old(result)@ + Seq::<ChessMoveDescription>::empty());
    }
}

/// The pawn moves of the pawn on `start`, moving for the side to move: an
/// error when no pawn stands there.
pub fn generate_pawn_moves_till_collide(game: &GameState, start: &SquareCoord) -> (r: Result<Vec<ChessMoveDescription>, CoordMoveError>)
    ensures
        !(piece_at(game@, *start) matches Some((_, k)) && k == PieceKind::Pawn) ==> r == Err::<Vec<ChessMoveDescription>, CoordMoveError>(
            CoordMoveError::MoveStartLocationIsNotValidPieceType,
        ),
        (piece_at(game@, *start) matches Some((_, k)) && k == PieceKind::Pawn) ==> (r is Ok && r.unwrap()@ == pawn_moves_from(game@, *start)),
{
    let mut result: Vec<ChessMoveDescription> = Vec::new();
    if let Some((_, class)) = view_at(game, start) {
        match class {
            PieceKind::Pawn => (),
            _ => return Err(CoordMoveError::MoveStartLocationIsNotValidPieceType),
        }
    } else {
        return Err(CoordMoveError::MoveStartLocationIsNotValidPieceType);
    }
    let forward_direction = get_forward_direction(game);
    pawn_step(game, start, 1, forward_direction, &mut result);
    pawn_step(game, start, -1, forward_direction, &mut result);
    pawn_step(game, start, 0, forward_direction, &mut result);
    let start_square: i8 = match game.side_to_move {
        Color::Dark => 6,
        Color::Light => 1,
    };
    if start_square == start.1 {
        pawn_step(game, start, 0, 2 * forward_direction, &mut result);
    }
    assert(result@ =~= pawn_moves_from(game@, *start));
    Ok(result)
}

/// Knight moves on coordinates, which this generation leaves empty.
pub fn generate_knight_moves_till_collide(game: &GameState, start: &SquareCoord) -> (r: Result<Vec<ChessMoveDescription>, CoordMoveError>)
    ensures
        r is Ok && r.unwrap()@ == Seq::<ChessMoveDescription>::empty(),
{
    Ok(Vec::new())
}

/// Bishop moves on coordinates, which this generation leaves empty.
pub fn generate_bishop_moves_till_collide(game: &GameState, start: &SquareCoord) -> (r: Result<Vec<ChessMoveDescription>, CoordMoveError>)
    ensures
        r is Ok && r.unwrap()@ == Seq::<ChessMoveDescription>::empty(),
{
    Ok(Vec::new())
}

/// Rook moves on coordinates, which this generation leaves empty.
pub fn generate_rook_moves_till_collide(game: &GameState, start: &SquareCoord) -> (r: Result<Vec<ChessMoveDescription>, CoordMoveError>)
    ensures
        r is Ok && r.unwrap()@ == Seq::<ChessMoveDescription>::empty(),
{
    Ok(Vec::new())
}

/// Queen moves on coordinates, which this generation leaves empty.
pub fn generate_queen_moves_till_collide(game: &GameState, start: &SquareCoord) -> (r: Result<Vec<ChessMoveDescription>, CoordMoveError>)
    ensures
        r is Ok && r.unwrap()@ == Seq::<ChessMoveDescription>::empty(),
{
    Ok(Vec::new())
}

/// King moves on coordinates, which this generation leaves empty.
pub fn generate_king_moves_till_collide(game: &GameState, start: &SquareCoord) -> (r: Result<Vec<ChessMoveDescription>, CoordMoveError>)
    ensures
        r is Ok && r.unwrap()@ == Seq::<ChessMoveDescription>::empty(),
{
    Ok(Vec::new())
}

} // verus!
