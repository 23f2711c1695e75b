//! Third-level move generation: the second-level split for a piece record,
//! dispatched on the piece's kind.

use vstd::prelude::*;
use crate::board_location::BoardLocation;
use crate::chess_errors::ChessErrors;
use crate::chess_types::PieceKind;
use crate::collision_masks::CollisionMasks;
use crate::generate_moves_level_1::{
    bucket, pawn_targets, bishop_targets, rook_targets, queen_targets, knight_targets,
    king_targets,
};
use crate::generate_moves_level_2::{
    GenerateLevel2Result, opponent, generate_pawn_moves_level_2, generate_bishop_moves_level_2,
    generate_knight_moves_level_2, generate_rook_moves_level_2, generate_queen_moves_level_2,
    generate_king_moves_level_2,
};
use crate::piece_record::PieceRecord;

verus! {

/// The candidate targets of a piece, by kind (pawn captures onto the
/// opponent only).
pub open spec fn piece_targets(piece: PieceRecord, masks: CollisionMasks) -> Seq<BoardLocation> {
    let loc = piece.location;
    match piece.class {
        PieceKind::Pawn => pawn_targets(loc, masks, piece.team, false),
        PieceKind::Bishop => bishop_targets(loc, masks, 4),
        PieceKind::Knight => knight_targets(loc, 8),
        PieceKind::Rook => rook_targets(loc, masks, 4),
        PieceKind::Queen => queen_targets(loc, masks, 4),
        PieceKind::King => king_targets(loc, 8),
    }
}

/// Free target squares and squares held by the opponent, for one piece.
#[derive(Debug, Clone)]
pub struct GenerateLevel3Result {
    pub no_collisions: Vec<BoardLocation>,
    pub captures: Vec<BoardLocation>,
}

impl GenerateLevel3Result {
    /// An empty result.
    pub fn new() -> (r: Self)
        ensures
            r.no_collisions@ == Seq::<BoardLocation>::empty(),
            r.captures@ == Seq::<BoardLocation>::empty(),
    {
        GenerateLevel3Result { no_collisions: Vec::new(), captures: Vec::new() }
    }

    /// Take over a second-level result's lists.
    pub fn from_level_2(x: GenerateLevel2Result) -> (r: Self)
        ensures
            r.no_collisions@ == x.no_collisions@,
            r.captures@ == x.captures@,
    {
        GenerateLevel3Result { no_collisions: x.no_collisions, captures: x.captures }
    }

    /// The split for `piece`: its free target squares and the squares the
    /// opponent holds, each in generation order.
    pub fn from(piece: &PieceRecord, masks: &CollisionMasks) -> (r: Result<Self, ChessErrors>)
        requires
            piece.location.binary_location != 0,
        ensures
            r is Ok,
            r.unwrap().no_collisions@ == bucket(piece_targets(*piece, *masks), *masks, None),
            r.unwrap().captures@ == bucket(
                piece_targets(*piece, *masks),
                *masks,
                Some(opponent(piece.team)),
            ),
    {
        Ok(
            GenerateLevel3Result::from_level_2(
                match piece.class {
                    PieceKind::Pawn => generate_pawn_moves_level_2(piece.location, masks, piece.team)?,
                    PieceKind::Bishop => generate_bishop_moves_level_2(piece.location, masks, piece.team)?,
                    PieceKind::Knight => generate_knight_moves_level_2(piece.location, masks, piece.team)?,
                    PieceKind::Rook => generate_rook_moves_level_2(piece.location, masks, piece.team)?,
                    PieceKind::Queen => generate_queen_moves_level_2(piece.location, masks, piece.team)?,
                    PieceKind::King => generate_king_moves_level_2(piece.location, masks, piece.team)?,
                },
            ),
        )
    }

    /// The number of targets kept.
    pub fn len(&self) -> (r: usize)
        requires
            self.captures.len() + self.no_collisions.len() <= usize::MAX,
        ensures
            r == self.captures.len() + self.no_collisions.len(),
    {
        self.captures.len() + self.no_collisions.len()
    }
}

} // verus!
