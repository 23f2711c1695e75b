//! Whether the side to move stands in check.

use vstd::prelude::*;
use crate::board_location::BoardLocation;
use crate::chess_errors::ChessErrors;
use crate::collision_masks::{CollisionMasks, masks_of};
use crate::game_state::{GameState, GameStateView};
use crate::generate_moves_level_2::opponent;
use crate::generate_moves_level_3::GenerateLevel3Result;
use crate::inspect_check::{
    captures_of, checkers, first_king, hit_count, pieces_of_team, repeated, team_pieces,
    team_to_move, view_king,
};
use crate::piece_record::{PieceRecord, single_square, team_of};
use crate::piece_team::PieceTeam;

verus! {

/// Whether a piece of the side not to move captures onto the king of the
/// side to move; an error without such a king.
pub open spec fn king_attacked(g: GameStateView) -> Result<bool, ChessErrors> {
    let team = team_of(g.side_to_move);
    match first_king(team_pieces(g, team, 64)) {
        None => Err(ChessErrors::PieceRegisterDoesNotContainAKing),
        Some(king) => Ok(
            checkers(team_pieces(g, opponent(team), 64), masks_of(g), king.location.binary_location).len() > 0,
        ),
    }
}

/// Hits in a prefix are hits of the whole list.
proof fn lemma_hit_count_prefix(caps: Seq<BoardLocation>, mask: u64, j: int)
    requires
        0 <= j <= caps.len(),
    ensures
        hit_count(caps.take(j), mask) <= hit_count(caps, mask),
    decreases caps.len() - j,
{
    if j < caps.len() {
        assert(caps.take(j + 1).drop_last() =~= caps.take(j));
        lemma_hit_count_prefix(caps, mask, j + 1);
    } else {
        assert(caps.take(j) =~= caps);
    }
}

/// Checkers among a prefix are checkers of the whole list.
proof fn lemma_checkers_prefix(pieces: Seq<PieceRecord>, masks: CollisionMasks, mask: u64, j: int)
    requires
        0 <= j <= pieces.len(),
    ensures
        checkers(pieces.take(j), masks, mask).len() <= checkers(pieces, masks, mask).len(),
    decreases pieces.len() - j,
{
    if j < pieces.len() {
        assert(pieces.take(j + 1).drop_last() =~= pieces.take(j));
        lemma_checkers_prefix(pieces, masks, mask, j + 1);
    } else {
        assert(pieces.take(j) =~= pieces);
    }
}

/// Whether the king of the side to move is attacked by an enemy piece.
pub fn inspect_if_game_has_king_in_check(game: &GameState) -> (r: Result<bool, ChessErrors>)
    ensures
        r == king_attacked(game@),
{
    let ghost g = game@;
    let collision_masks = CollisionMasks::from(game);
    let team = team_to_move(game);
    let king = view_king(game, team)?;
    let king_mask = king.location.binary_location;
    let enemy_team = match team {
        PieceTeam::Light => PieceTeam::Dark,
        PieceTeam::Dark => PieceTeam::Light,
    };
    assert(team == team_of(g.side_to_move));
    assert(enemy_team == opponent(team));
    let enemy_pieces = pieces_of_team(game, enemy_team);
    let ghost pieces = enemy_pieces@;
    let mut n: usize = 0;
    assert(pieces.take(0) =~= Seq::<PieceRecord>::empty());
    while n < enemy_pieces.len()
        invariant
            n <= pieces.len(),
            pieces == enemy_pieces@,
            pieces == team_pieces(g, opponent(team_of(g.side_to_move)), 64),
            g == game@,
            collision_masks == masks_of(g),
            first_king(team_pieces(g, team_of(g.side_to_move), 64)) == Some(king),
            king_mask == king.location.binary_location,
            forall|i: int| 0 <= i < pieces.len() ==> single_square(#[trigger] pieces[i].location),
            checkers(pieces.take(n as int), collision_masks, king_mask).len() == 0,
        decreases pieces.len() - n,
    {
        let p = enemy_pieces[n];
        assert(single_square(pieces[n as int].location));
        assert(pieces.take(n + 1).drop_last() =~= pieces.take(n as int));
        assert(pieces.take(n + 1).last() == p);
        let generated_moves_level_3 = GenerateLevel3Result::from(&p, &collision_masks)?;
        let captures = generated_moves_level_3.captures;
        assert(captures@ == captures_of(p, collision_masks));
        let mut k: usize = 0;
        assert(captures@.take(0) =~= Seq::<BoardLocation>::empty());
        while k < captures.len()
            invariant
                k <= captures@.len(),
                n < pieces.len(),
                pieces == team_pieces(g, opponent(team_of(g.side_to_move)), 64),
                g == game@,
                collision_masks == masks_of(g),
                first_king(team_pieces(g, team_of(g.side_to_move), 64)) == Some(king),
                king_mask == king.location.binary_location,
                pieces[n as int] == p,
                captures@ == captures_of(p, collision_masks),
                checkers(pieces.take(n as int), collision_masks, king_mask).len() == 0,
                pieces.take(n + 1).drop_last() == pieces.take(n as int),
                pieces.take(n + 1).last() == p,
                hit_count(captures@.take(k as int), king_mask) == 0,
            decreases captures@.len() - k,
        {
            let c = captures[k];
            assert(captures@.take(k + 1).drop_last() =~= captures@.take(k as int));
            assert(captures@.take(k + 1).last() == c);
            if c.binary_location & king_mask > 0 {
                proof {
                    assert(hit_count(captures@.take(k + 1), king_mask) == 1);
                    lemma_hit_count_prefix(captures@, king_mask, k + 1);
                    let h = hit_count(captures_of(p, collision_masks), king_mask);
                    assert(checkers(pieces.take(n + 1), collision_masks, king_mask) == checkers(
                        pieces.take(n as int),
                        collision_masks,
                        king_mask,
                    ) + repeated(p, h));
                    assert(checkers(pieces.take(n + 1), collision_masks, king_mask).len() == h);
                    lemma_checkers_prefix(pieces, collision_masks, king_mask, n + 1);
                }
                return Ok(true);
            }
            k = k + 1;
        }
        assert(captures@.take(captures@.len() as int) =~= captures@);
        n = n + 1;
    }
    assert(pieces.take(pieces.len() as int) =~= pieces);
    Ok(false)
}

} // verus!
