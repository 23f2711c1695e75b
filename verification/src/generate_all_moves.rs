//! All checked moves of the side to move.

use vstd::prelude::*;
use crate::chess_errors::ChessErrors;
use crate::chess_types::Color;
use crate::game_state::{GameState, GameStateView};
use crate::generate_moves_level_5::{
    CheckedMoveView, GenerateLevel5Result, Level5, generate_moves_level_5, level5_moves, reports,
    room_for_two_moves, views,
};
use crate::inspect_check::{pieces_of_team, team_pieces};
use crate::piece_record::{PieceRecord, single_square, team_of};
use crate::piece_team::PieceTeam;
use crate::apply_move_to_game::{filtered_applied, safe_applied, unchecked_applied};
use crate::generate_moves_level_5::{level5_entries, move_entry, Level5Step};
use crate::generate_moves_level_4::level4_moves;
use crate::collision_masks::masks_of;
use crate::special_move_flags::flags_of;
use crate::legal_move_checks::king_in_check;
use crate::move_description::MoveDescription;

verus! {

/// The checked moves of `pieces`, piece by piece in order.
pub open spec fn all_entries(g: GameStateView, pieces: Seq<PieceRecord>) -> Level5
    decreases pieces.len(),
{
    if pieces.len() == 0 {
        Level5::Done(Ok(Seq::empty()))
    } else {
        match all_entries(g, pieces.drop_last()) {
            Level5::Done(Ok(done)) => match level5_moves(pieces.last(), g) {
                Level5::Done(Ok(s)) => Level5::Done(Ok(done + s)),
                other => other,
            },
            other => other,
        }
    }
}

/// The checked moves of every piece of the side to move, the pieces taken
/// in square order.
pub open spec fn all_checked_moves(g: GameStateView) -> Level5 {
    all_entries(g, team_pieces(g, team_of(g.side_to_move), 64))
}

/// Once a prefix of the pieces stops, the whole list stops the same way.
proof fn lemma_all_entries_sticks(g: GameStateView, pieces: Seq<PieceRecord>, j: int)
    requires
        0 <= j <= pieces.len(),
        !(all_entries(g, pieces.take(j)) is Done && all_entries(g, pieces.take(j))->Done_0 is Ok),
    ensures
        all_entries(g, pieces) == all_entries(g, pieces.take(j)),
    decreases pieces.len() - j,
{
    if j < pieces.len() {
        assert(pieces.take(j + 1).drop_last() =~= pieces.take(j));
        lemma_all_entries_sticks(g, pieces, j + 1);
    } else {
        assert(pieces.take(j) =~= pieces);
    }
}

/// Every checked move of the side to move: the pieces' fifth-level moves
/// one piece after another.
pub fn generate_all_moves(game: &GameState) -> (r: Result<GenerateLevel5Result, ChessErrors>)
    requires
        room_for_two_moves(game@),
    ensures
        reports(r, all_checked_moves(game@)),
{
    let ghost g = game@;
    let team = match game.side_to_move {
        Color::Light => PieceTeam::Light,
        Color::Dark => PieceTeam::Dark,
    };
    assert(team == team_of(g.side_to_move));
    let friendly_pieces = pieces_of_team(game, team);
    let ghost pieces = friendly_pieces@;
    let mut result: GenerateLevel5Result = Vec::new();
    let mut n: usize = 0;
    assert(pieces.take(0) =~= Seq::<PieceRecord>::empty());
    assert(views(result@) =~= Seq::<CheckedMoveView>::empty());
    while n < friendly_pieces.len()
        invariant
            n <= pieces.len(),
            pieces == friendly_pieces@,
            pieces == team_pieces(g, team_of(g.side_to_move), 64),
            g == game@,
            room_for_two_moves(g),
            forall|i: int| 0 <= i < pieces.len() ==> single_square(#[trigger] pieces[i].location),
            all_entries(g, pieces.take(n as int)) == Level5::Done(
                Ok::<Seq<CheckedMoveView>, ChessErrors>(views(result@)),
            ),
        decreases pieces.len() - n,
    {
        let p = friendly_pieces[n];
        assert(single_square(pieces[n as int].location));
        assert(pieces.take(n + 1).drop_last() =~= pieces.take(n as int));
        assert(pieces.take(n + 1).last() == p);
        let moves = generate_moves_level_5(&p, game);
        match moves {
            Err(e) => {
                proof {
                    assert(all_entries(g, pieces.take(n + 1)) == level5_moves(p, g));
                    lemma_all_entries_sticks(g, pieces, n + 1);
                }
                return Err(e);
            },
            Ok(mut ms) => {
                let ghost before = result@;
                let ghost added = ms@;
                result.append(&mut ms);
                assert(views(result@) =~= views(before) + views(added));
            },
        }
        n = n + 1;
    }
    assert(pieces.take(pieces.len() as int) =~= pieces);
    Ok(result)
}

/// A move that is allowed leaves the position the unchecked application
/// gives, with the mover's king not in check.
proof fn lemma_allowed_is_safe(v: GameStateView, mv: MoveDescription, w: GameStateView)
    requires
        filtered_applied(v, mv) == Ok::<Option<GameStateView>, ChessErrors>(Some(w)),
    ensures
        unchecked_applied(v, mv) == Ok::<GameStateView, ChessErrors>(w),
        !king_in_check(w, w.side_to_move.other()),
{
    assert(safe_applied(v, mv) == Ok::<Option<GameStateView>, ChessErrors>(Some(w)));
}

/// A candidate that yields a checked move is allowed, and the checked move
/// carries it and the position after it.
proof fn lemma_move_entry_allowed(g: GameStateView, mv: MoveDescription)
    ensures
        move_entry(g, mv) matches Level5Step::Entry(c) ==> c.checked_move.description == mv && filtered_applied(g, mv)
            == Ok::<Option<GameStateView>, ChessErrors>(Some(c.game_after_move)),
{
    reveal(move_entry);
}

/// Every checked move produced from candidates `ms` is one of them,
/// allowed, with its position after the move.
proof fn lemma_entries_allowed(g: GameStateView, ms: Seq<MoveDescription>)
    requires
        level5_entries(g, ms) is Done && level5_entries(g, ms)->Done_0 is Ok,
    ensures
        forall|i: int| #![trigger level5_entries(g, ms)->Done_0->Ok_0[i]]
            0 <= i < level5_entries(g, ms)->Done_0->Ok_0.len() ==> {
                let c = level5_entries(g, ms)->Done_0->Ok_0[i];
                &&& ms.contains(c.checked_move.description)
                &&& filtered_applied(g, c.checked_move.description) == Ok::<Option<GameStateView>, ChessErrors>(Some(c.game_after_move))
            },
    decreases ms.len(),
{
    if ms.len() > 0 {
        let rest = ms.drop_last();
        lemma_entries_allowed(g, rest);
        let before = level5_entries(g, rest)->Done_0->Ok_0;
        let out = level5_entries(g, ms)->Done_0->Ok_0;
        lemma_move_entry_allowed(g, ms.last());
        assert forall|i: int| 0 <= i < out.len() implies {
            let c = #[trigger] out[i];
            &&& ms.contains(c.checked_move.description)
            &&& filtered_applied(g, c.checked_move.description) == Ok::<Option<GameStateView>, ChessErrors>(Some(c.game_after_move))
        } by {
            if i < before.len() {
                assert(out[i] == before[i]);
                let j = choose|j: int| 0 <= j < rest.len() && rest[j] == before[i].checked_move.description;
                assert(ms[j] == rest[j]);
            } else {
                assert(ms[ms.len() - 1] == ms.last());
            }
        }
    }
}

/// The checked moves of a list of pieces, each allowed, with its position
/// after the move.
proof fn lemma_all_entries_allowed(g: GameStateView, pieces: Seq<PieceRecord>)
    requires
        all_entries(g, pieces) is Done && all_entries(g, pieces)->Done_0 is Ok,
    ensures
        forall|i: int| #![trigger all_entries(g, pieces)->Done_0->Ok_0[i]]
            0 <= i < all_entries(g, pieces)->Done_0->Ok_0.len() ==> {
                let c = all_entries(g, pieces)->Done_0->Ok_0[i];
                filtered_applied(g, c.checked_move.description) == Ok::<Option<GameStateView>, ChessErrors>(Some(c.game_after_move))
            },
    decreases pieces.len(),
{
    if pieces.len() > 0 {
        let rest = pieces.drop_last();
        lemma_all_entries_allowed(g, rest);
        let before = all_entries(g, rest)->Done_0->Ok_0;
        let out = all_entries(g, pieces)->Done_0->Ok_0;
        let ms = level4_moves(pieces.last(), masks_of(g), flags_of(g), g)->Ok_0;
        lemma_entries_allowed(g, ms);
        let added = level5_entries(g, ms)->Done_0->Ok_0;
        assert(out == before + added);
        assert forall|i: int| 0 <= i < out.len() implies {
            let c = #[trigger] out[i];
            filtered_applied(g, c.checked_move.description) == Ok::<Option<GameStateView>, ChessErrors>(Some(c.game_after_move))
        } by {
            if i < before.len() {
                assert(out[i] == before[i]);
            } else {
                assert(out[i] == added[i - before.len()]);
            }
        }
    }
}

/// Every move the side to move is offered leaves its own king out of
/// check: the position listed with it is the move applied, and in that
/// position the side that moved is not in check.
pub proof fn lemma_checked_moves_keep_king_safe(g: GameStateView, i: int)
    requires
        all_checked_moves(g) is Done && all_checked_moves(g)->Done_0 is Ok,
        0 <= i < all_checked_moves(g)->Done_0->Ok_0.len(),
    ensures
        unchecked_applied(g, all_checked_moves(g)->Done_0->Ok_0[i].checked_move.description) == Ok::<GameStateView, ChessErrors>(
            all_checked_moves(g)->Done_0->Ok_0[i].game_after_move,
        ),
        !king_in_check(
            all_checked_moves(g)->Done_0->Ok_0[i].game_after_move,
            all_checked_moves(g)->Done_0->Ok_0[i].game_after_move.side_to_move.other(),
        ),
{
    let pieces = team_pieces(g, team_of(g.side_to_move), 64);
    lemma_all_entries_allowed(g, pieces);
    let c = all_checked_moves(g)->Done_0->Ok_0[i];
    lemma_allowed_is_safe(g, c.checked_move.description, c.game_after_move);
}

} // verus!
