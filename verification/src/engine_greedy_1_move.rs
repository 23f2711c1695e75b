//! The one-move greedy choice: the move after which the material score is
//! best for the mover.

use vstd::prelude::*;
use crate::chess_types::Color;
use crate::generate_moves_level_5::{views, CheckedMoveView, CheckedMoveWithFutureGame};
use crate::material::{material_score_fits, side_material};
use crate::move_description::MoveDescription;

verus! {

/// Light's material minus Dark's.
pub open spec fn light_material_score(v: crate::game_state::GameStateView) -> int {
    side_material(v, Color::Light) - side_material(v, Color::Dark)
}

/// Scanning the moves `ms[i..]` for side `mover`, with the move kept so far
/// `best` and its score `best_score`: a move whose position scores at least
/// as well for the mover (Light wants higher, Dark lower) replaces it, so
/// ties go to the later move.
pub open spec fn greedy_choice(
    ms: Seq<CheckedMoveView>,
    mover: Color,
    i: int,
    best: Option<MoveDescription>,
    best_score: int,
) -> Option<MoveDescription>
    decreases ms.len() - i,
{
    if i < 0 || i >= ms.len() {
        best
    } else {
        let s = light_material_score(ms[i].game_after_move);
        let better = match mover {
            Color::Dark => s <= best_score,
            Color::Light => s >= best_score,
        };
        if better {
            greedy_choice(ms, mover, i + 1, Some(ms[i].checked_move.description), s)
        } else {
            greedy_choice(ms, mover, i + 1, best, best_score)
        }
    }
}

/// The greedy choice among `moves` for side `mover`, measured against a
/// starting score of 0: the last move whose position scores at least as
/// well as every earlier kept one (see `greedy_choice`); `None` when no
/// move reaches a score of 0 or better for the mover.
pub fn select_greedy_1_move(moves: &Vec<CheckedMoveWithFutureGame>, mover: Color) -> (r: Option<MoveDescription>)
    requires
        forall|i: int| 0 <= i < moves@.len() ==> material_score_fits(#[trigger] moves@[i].game_after_move@),
    ensures
        r == greedy_choice(views(moves@), mover, 0, None, 0),
{
    let ghost ms = views(moves@);
    let mut best: Option<MoveDescription> = None;
    let mut best_score: i8 = 0;
    let mut i: usize = 0;
    while i < moves.len()
        invariant
            i <= moves.len(),
            ms == views(moves@),
            forall|k: int| 0 <= k < moves@.len() ==> material_score_fits(#[trigger] moves@[k].game_after_move@),
            greedy_choice(ms, mover, i as int, best, best_score as int) == greedy_choice(ms, mover, 0, None, 0),
        decreases moves.len() - i,
    {
        let m = &moves[i];
        assert(material_score_fits(moves@[i as int].game_after_move@));
        let score = m.game_after_move.get_material_score();
        let improvement = match mover {
            Color::Dark => score <= best_score,
            Color::Light => score >= best_score,
        };
        assert(ms[i as int] == moves@[i as int]@);
        if improvement {
            best_score = score;
            best = Some(m.checked_move.description);
        }
        i = i + 1;
    }
    best
}

} // verus!
