//! Second-level move generation: first-level results split, for the moving
//! side, into free squares and squares held by the opponent.

use vstd::prelude::*;
use crate::board_location::BoardLocation;
use crate::chess_errors::ChessErrors;
use crate::collision_masks::CollisionMasks;
use crate::generate_movements::{
    generate_pawn_single_step_movement, generate_pawn_double_step_movement,
    generate_pawn_capture_movement,
};
use crate::generate_moves_level_1::{
    GenerateLevel1Result, bucket, lemma_bucket_push, pawn_pushes, pawn_capture,
    pawn_targets, bishop_targets, rook_targets, queen_targets, knight_targets, king_targets,
    generate_bishop_moves_level_1, generate_knight_moves_level_1, generate_rook_moves_level_1,
    generate_queen_moves_level_1, generate_king_moves_level_1,
};
use crate::piece_team::PieceTeam;

verus! {

/// The opposing team.
pub open spec fn opponent(team: PieceTeam) -> PieceTeam {
    match team {
        PieceTeam::Light => PieceTeam::Dark,
        PieceTeam::Dark => PieceTeam::Light,
    }
}

/// Free target squares and squares held by the opponent.
#[derive(Debug, Clone)]
pub struct GenerateLevel2Result {
    pub no_collisions: Vec<BoardLocation>,
    pub captures: Vec<BoardLocation>,
}

impl GenerateLevel2Result {
    /// The free squares of `targets`, and those the opponent of `team`
    /// holds, each in the order of `targets`.
    pub open spec fn sorts_for(self, targets: Seq<BoardLocation>, masks: CollisionMasks, team: PieceTeam) -> bool {
        &&& self.no_collisions@ == bucket(targets, masks, None)
        &&& self.captures@ == bucket(targets, masks, Some(opponent(team)))
    }

    /// An empty result.
    pub fn new() -> (r: Self)
        ensures
            r.no_collisions@ == Seq::<BoardLocation>::empty(),
            r.captures@ == Seq::<BoardLocation>::empty(),
    {
        GenerateLevel2Result { no_collisions: Vec::new(), captures: Vec::new() }
    }

    /// Keep a first-level result's free squares and the squares held by the
    /// opponent of `team`.
    pub fn from(x: GenerateLevel1Result, team: PieceTeam) -> (r: Self)
        ensures
            r.no_collisions@ == x.no_collisions@,
            r.captures@ == match team {
                PieceTeam::Dark => x.light_collisions@,
                PieceTeam::Light => x.dark_collisions@,
            },
    {
        GenerateLevel2Result {
            no_collisions: x.no_collisions,
            captures: match team {
                PieceTeam::Dark => x.light_collisions,
                PieceTeam::Light => x.dark_collisions,
            },
        }
    }

    /// The number of targets kept.
    pub fn len(&self) -> (r: usize)
        requires
            self.captures.len() + self.no_collisions.len() <= usize::MAX,
        ensures
            r == self.captures.len() + self.no_collisions.len(),
    {
        self.captures.len() + self.no_collisions.len()
    }
}

/// A first-level result for `targets` gives the second-level split.
proof fn lemma_from_sorts(x: GenerateLevel1Result, r: GenerateLevel2Result, targets: Seq<BoardLocation>, masks: CollisionMasks, team: PieceTeam)
    requires
        x.sorts(targets, masks),
        r.no_collisions@ == x.no_collisions@,
        r.captures@ == match team {
            PieceTeam::Dark => x.light_collisions@,
            PieceTeam::Light => x.dark_collisions@,
        },
    ensures
        r.sorts_for(targets, masks, team),
{
}

/// Pawn targets at the second level: the free squares ahead and the
/// diagonal squares the opponent holds.
pub fn generate_pawn_moves_level_2(start: BoardLocation, masks: &CollisionMasks, team: PieceTeam) -> (r:
    Result<GenerateLevel2Result, ChessErrors>)
    requires
        start.binary_location != 0,
    ensures
        r is Ok,
        r.unwrap().sorts_for(pawn_targets(start, *masks, team, false), *masks, team),
{
    let mut result_1 = GenerateLevel1Result::new();
    let ghost mut done: Seq<BoardLocation> = Seq::empty();
    proof {
        assert(result_1.sorts(done, *masks));
    }
    if let Ok(x) = generate_pawn_single_step_movement(start, team) {
        if result_1.sort_raw_move(x, masks).is_none() {
            result_1.add_sorted_moves(x, None);
            proof {
                lemma_bucket_push(done, x, *masks, None);
                lemma_bucket_push(done, x, *masks, Some(PieceTeam::Light));
                lemma_bucket_push(done, x, *masks, Some(PieceTeam::Dark));
                done = done.push(x);
            }
            let (_, start_rank) = start.get_file_rank();
            if (start_rank == 1 && matches!(team, PieceTeam::Light)) || (start_rank == 6 && matches!(team, PieceTeam::Dark)) {
                if let Ok(y) = generate_pawn_double_step_movement(start, team) {
                    if result_1.sort_raw_move(y, masks).is_none() {
                        result_1.add_sorted_moves(y, None);
                        proof {
                            lemma_bucket_push(done, y, *masks, None);
                            lemma_bucket_push(done, y, *masks, Some(PieceTeam::Light));
                            lemma_bucket_push(done, y, *masks, Some(PieceTeam::Dark));
                            done = done.push(y);
                        }
                    }
                }
            }
        }
    }
    assert(done =~= pawn_pushes(start, *masks, team));
    let mut d_file: i8 = -1;
    while d_file <= 1
        invariant
            d_file == -1 || d_file == 1 || d_file == 3,
            start.binary_location != 0,
            result_1.sorts(done, *masks),
            d_file == -1 ==> done == pawn_pushes(start, *masks, team),
            d_file == 1 ==> done == pawn_pushes(start, *masks, team) + pawn_capture(
                start,
                *masks,
                team,
                -1i8,
                false,
            ),
            d_file == 3 ==> done == pawn_targets(start, *masks, team, false),
        decreases 3 - d_file,
    {
        let ghost prev = done;
        if let Ok(x) = generate_pawn_capture_movement(start, team, d_file) {
            if let Some(y) = result_1.sort_raw_move(x, masks) {
                if y != team {
                    result_1.add_sorted_moves(x, Some(y));
                    proof {
                        lemma_bucket_push(done, x, *masks, None);
                        lemma_bucket_push(done, x, *masks, Some(PieceTeam::Light));
                        lemma_bucket_push(done, x, *masks, Some(PieceTeam::Dark));
                        done = done.push(x);
                    }
                }
            }
        }
        assert(done =~= prev + pawn_capture(start, *masks, team, d_file, false));
        d_file = d_file + 2;
    }
    let r = GenerateLevel2Result::from(result_1, team);
    proof {
        lemma_from_sorts(result_1, r, done, *masks, team);
    }
    Ok(r)
}

/// Knight targets at the second level.
pub fn generate_knight_moves_level_2(start: BoardLocation, masks: &CollisionMasks, team: PieceTeam) -> (r:
    Result<GenerateLevel2Result, ChessErrors>)
    requires
        start.binary_location != 0,
    ensures
        r is Ok,
        r.unwrap().sorts_for(knight_targets(start, 8), *masks, team),
{
    let result_1 = generate_knight_moves_level_1(start, masks)?;
    let r = GenerateLevel2Result::from(result_1, team);
    proof {
        lemma_from_sorts(result_1, r, knight_targets(start, 8), *masks, team);
    }
    Ok(r)
}

/// Bishop targets at the second level.
pub fn generate_bishop_moves_level_2(start: BoardLocation, masks: &CollisionMasks, team: PieceTeam) -> (r:
    Result<GenerateLevel2Result, ChessErrors>)
    requires
        start.binary_location != 0,
    ensures
        r is Ok,
        r.unwrap().sorts_for(bishop_targets(start, *masks, 4), *masks, team),
{
    let result_1 = generate_bishop_moves_level_1(start, masks)?;
    let r = GenerateLevel2Result::from(result_1, team);
    proof {
        lemma_from_sorts(result_1, r, bishop_targets(start, *masks, 4), *masks, team);
    }
    Ok(r)
}

/// Rook targets at the second level.
pub fn generate_rook_moves_level_2(start: BoardLocation, masks: &CollisionMasks, team: PieceTeam) -> (r:
    Result<GenerateLevel2Result, ChessErrors>)
    requires
        start.binary_location != 0,
    ensures
        r is Ok,
        r.unwrap().sorts_for(rook_targets(start, *masks, 4), *masks, team),
{
    let result_1 = generate_rook_moves_level_1(start, masks)?;
    let r = GenerateLevel2Result::from(result_1, team);
    proof {
        lemma_from_sorts(result_1, r, rook_targets(start, *masks, 4), *masks, team);
    }
    Ok(r)
}

/// Queen targets at the second level.
pub fn generate_queen_moves_level_2(start: BoardLocation, masks: &CollisionMasks, team: PieceTeam) -> (r:
    Result<GenerateLevel2Result, ChessErrors>)
    requires
        start.binary_location != 0,
    ensures
        r is Ok,
        r.unwrap().sorts_for(queen_targets(start, *masks, 4), *masks, team),
{
    let result_1 = generate_queen_moves_level_1(start, masks)?;
    let r = GenerateLevel2Result::from(result_1, team);
    proof {
        lemma_from_sorts(result_1, r, queen_targets(start, *masks, 4), *masks, team);
    }
    Ok(r)
}

/// King targets at the second level.
pub fn generate_king_moves_level_2(start: BoardLocation, masks: &CollisionMasks, team: PieceTeam) -> (r:
    Result<GenerateLevel2Result, ChessErrors>)
    requires
        start.binary_location != 0,
    ensures
        r is Ok,
        r.unwrap().sorts_for(king_targets(start, 8), *masks, team),
{
    let result_1 = generate_king_moves_level_1(start, masks)?;
    let r = GenerateLevel2Result::from(result_1, team);
    proof {
        lemma_from_sorts(result_1, r, king_targets(start, 8), *masks, team);
    }
    Ok(r)
}

} // verus!
