//! Fifth level of square-vector move generation: the moves of a piece that
//! do not leave its own king in check, each with the position it leads to
//! and the check it gives.

use vstd::prelude::*;
use crate::board_location::BoardLocation;
use crate::apply_move_to_game::{
    apply_move_to_game_filtering_no_friendly_check, filtered_applied, safe_applied,
    unchecked_applied, lemma_single_at, move_locations_ok, square_of,
};
use crate::checked_move_description::CheckedMoveDescription;
use crate::chess_errors::ChessErrors;
use crate::collision_masks::{CollisionMasks, masks_of};
use crate::game_state::{GameState, GameStateView};
use crate::generate_moves_level_4::{generate_moves_level_4, level4_moves, lemma_level4_located, all_moves_located};
use crate::inspect_check::{Inspection, inspection, inspect_check, too_many_checkers};
use crate::move_description::{MoveDescription, MoveTypes};
use crate::piece_record::{PieceRecord, record_at, single_square, view_piece_at_location};
use crate::special_move_flags::{SpecialMoveFlags, flags_of};

verus! {

broadcast use vstd::std_specs::bits::axiom_u64_leading_zeros;

/// A move that keeps the mover's king safe, with the position after it.
pub struct CheckedMoveWithFutureGame {
    pub checked_move: CheckedMoveDescription,
    pub game_after_move: GameState,
}

/// A checked move with the position after it taken by its view.
pub struct CheckedMoveView {
    pub checked_move: CheckedMoveDescription,
    pub game_after_move: GameStateView,
}

impl View for CheckedMoveWithFutureGame {
    type V = CheckedMoveView;

    open spec fn view(&self) -> CheckedMoveView {
        CheckedMoveView { checked_move: self.checked_move, game_after_move: self.game_after_move@ }
    }
}

/// The moves of one piece, in generation order.
pub type GenerateLevel5Result = Vec<CheckedMoveWithFutureGame>;

/// The views of a list of checked moves.
pub open spec fn views(v: Seq<CheckedMoveWithFutureGame>) -> Seq<CheckedMoveView> {
    v.map_values(|c: CheckedMoveWithFutureGame| c@)
}

/// What one candidate move contributes.
pub enum Level5Step {
    /// The move leaves the mover in check.
    Skip,
    /// The move, the check it gives and the position after it.
    Entry(CheckedMoveView),
    /// An error met while trying the move.
    Fail(ChessErrors),
    /// More than two checking pieces after the move.
    TooManyCheckers,
}

/// A list of checked moves, or how producing it stopped.
pub enum Level5 {
    /// The list, or the first error met.
    Done(Result<Seq<CheckedMoveView>, ChessErrors>),
    /// More than two checking pieces after some move.
    TooManyCheckers,
}

/// Try candidate `mv`: skip it when it leaves the mover in check;
/// otherwise read the moved piece on its destination and inspect the
/// check it gives.
#[verifier::opaque]
pub open spec fn move_entry(g: GameStateView, mv: MoveDescription) -> Level5Step {
    match filtered_applied(g, mv) {
        Err(e) => Level5Step::Fail(e),
        Ok(None) => Level5Step::Skip,
        Ok(Some(w)) => match record_at(w, mv.vector.destination) {
            None => Level5Step::Fail(ChessErrors::TryToViewOrEditEmptySquare(mv.vector.destination)),
            Some(lm) => match inspection(w, Some(lm)) {
                Inspection::Done(Err(e)) => Level5Step::Fail(e),
                Inspection::Done(Ok(cs)) => Level5Step::Entry(
                    CheckedMoveView {
                        checked_move: CheckedMoveDescription { description: mv, check_status: cs },
                        game_after_move: w,
                    },
                ),
                Inspection::TooManyCheckers => Level5Step::TooManyCheckers,
            },
        },
    }
}

/// The checked moves among candidates `ms`, tried in order.
pub open spec fn level5_entries(g: GameStateView, ms: Seq<MoveDescription>) -> Level5
    decreases ms.len(),
{
    if ms.len() == 0 {
        Level5::Done(Ok(Seq::empty()))
    } else {
        match level5_entries(g, ms.drop_last()) {
            Level5::Done(Ok(done)) => match move_entry(g, ms.last()) {
                Level5Step::Skip => Level5::Done(Ok(done)),
                Level5Step::Entry(c) => Level5::Done(Ok(done.push(c))),
                Level5Step::Fail(e) => Level5::Done(Err(e)),
                Level5Step::TooManyCheckers => Level5::TooManyCheckers,
            },
            other => other,
        }
    }
}

/// The checked moves of `piece`: its fourth-level moves that keep its king
/// safe.
pub open spec fn level5_moves(piece: PieceRecord, g: GameStateView) -> Level5 {
    match level4_moves(piece, masks_of(g), flags_of(g), g) {
        Err(e) => Level5::Done(Err(e)),
        Ok(ms) => level5_entries(g, ms),
    }
}

/// The clocks have room for two more moves, and an en-passant square is
/// on the board.
pub open spec fn room_for_two_moves(g: GameStateView) -> bool {
    &&& g.en_passant_square matches Some(e) ==> e < 64
    &&& g.halfmove_clock < u16::MAX - 1
    &&& g.fullmove_number < u16::MAX - 1
}

/// `r` reports `out`.
pub open spec fn reports(r: Result<GenerateLevel5Result, ChessErrors>, out: Level5) -> bool {
    match out {
        Level5::Done(Ok(s)) => r is Ok && views(r.unwrap()@) == s,
        Level5::Done(Err(e)) => r == Err::<GenerateLevel5Result, ChessErrors>(e),
        Level5::TooManyCheckers => r matches Err(e) && too_many_checkers(e),
    }
}

/// A square of a single-square location is on the board.
proof fn lemma_square_on_board(loc: BoardLocation)
    requires
        single_square(loc),
    ensures
        square_of(loc) < 64,
{
}

/// After an allowed move the clocks still have room for one more move and
/// an en-passant square is on the board.
proof fn lemma_after_move_room(g: GameStateView, mv: MoveDescription, w: GameStateView)
    requires
        room_for_two_moves(g),
        move_locations_ok(mv),
        filtered_applied(g, mv) == Ok::<Option<GameStateView>, ChessErrors>(Some(w)),
    ensures
        w.en_passant_square matches Some(e) ==> e < 64,
        w.halfmove_clock < u16::MAX,
        w.fullmove_number < u16::MAX,
{
    assert(safe_applied(g, mv) == Ok::<Option<GameStateView>, ChessErrors>(Some(w)));
    assert(unchecked_applied(g, mv) == Ok::<GameStateView, ChessErrors>(w));
    if let MoveTypes::DoubleStep(behind) = mv.move_type {
        lemma_square_on_board(behind);
    }
}

/// Try one candidate move.
fn checked_entry(game: &GameState, move_to_try: &MoveDescription) -> (r: Result<Option<CheckedMoveWithFutureGame>, ChessErrors>)
    requires
        room_for_two_moves(game@),
        move_locations_ok(*move_to_try),
    ensures
        match move_entry(game@, *move_to_try) {
            Level5Step::Skip => r is Ok && r.unwrap() is None,
            Level5Step::Entry(c) => r is Ok && r.unwrap() is Some && r.unwrap().unwrap()@ == c,
            Level5Step::Fail(e) => r == Err::<Option<CheckedMoveWithFutureGame>, ChessErrors>(e),
            Level5Step::TooManyCheckers => r matches Err(e) && too_many_checkers(e),
        },
{
    proof {
        reveal(move_entry);
    }
    let future = apply_move_to_game_filtering_no_friendly_check(move_to_try, game)?;
    match future {
        None => Ok(None),
        Some(future_game) => {
            proof {
                lemma_after_move_room(game@, *move_to_try, future_game@);
            }
            let last_piece_moved = view_piece_at_location(&future_game, move_to_try.vector.destination)?;
            let check_status = inspect_check(&future_game, Some(last_piece_moved))?;
            Ok(
                Some(
                    CheckedMoveWithFutureGame {
                        checked_move: CheckedMoveDescription { description: *move_to_try, check_status },
                        game_after_move: future_game,
                    },
                ),
            )
        },
    }
}

/// One more candidate after a prefix that produced `done`.
proof fn lemma_level5_step(g: GameStateView, ms: Seq<MoveDescription>, k: int, done: Seq<CheckedMoveView>)
    requires
        0 <= k < ms.len(),
        level5_entries(g, ms.take(k)) == Level5::Done(Ok::<Seq<CheckedMoveView>, ChessErrors>(done)),
    ensures
        level5_entries(g, ms.take(k + 1)) == match move_entry(g, ms[k]) {
            Level5Step::Skip => Level5::Done(Ok(done)),
            Level5Step::Entry(c) => Level5::Done(Ok(done.push(c))),
            Level5Step::Fail(e) => Level5::Done(Err(e)),
            Level5Step::TooManyCheckers => Level5::TooManyCheckers,
        },
{
    assert(ms.take(k + 1).drop_last() =~= ms.take(k));
    assert(ms.take(k + 1).last() == ms[k]);
}

/// Once a prefix of the candidates stops, the whole list stops the same
/// way.
proof fn lemma_level5_sticks(g: GameStateView, ms: Seq<MoveDescription>, j: int)
    requires
        0 <= j <= ms.len(),
        !(level5_entries(g, ms.take(j)) is Done && level5_entries(g, ms.take(j))->Done_0 is Ok),
    ensures
        level5_entries(g, ms) == level5_entries(g, ms.take(j)),
    decreases ms.len() - j,
{
    if j < ms.len() {
        assert(ms.take(j + 1).drop_last() =~= ms.take(j));
        lemma_level5_sticks(g, ms, j + 1);
    } else {
        assert(ms.take(j) =~= ms);
    }
}

/// The checked moves among `candidate_moves`, tried in order.
fn checked_entries(game: &GameState, candidate_moves: &Vec<MoveDescription>) -> (r: Result<GenerateLevel5Result, ChessErrors>)
    requires
        room_for_two_moves(game@),
        all_moves_located(candidate_moves@),
    ensures
        reports(r, level5_entries(game@, candidate_moves@)),
{
    let ghost g = game@;
    let ghost ms = candidate_moves@;
    let mut result: GenerateLevel5Result = Vec::new();
    let mut k: usize = 0;
    assert(ms.take(0) =~= Seq::<MoveDescription>::empty());
    assert(views(result@) =~= Seq::<CheckedMoveView>::empty());
    while k < candidate_moves.len()
        invariant
            k <= ms.len(),
            ms == candidate_moves@,
            g == game@,
            room_for_two_moves(g),
            all_moves_located(ms),
            level5_entries(g, ms.take(k as int)) == Level5::Done(
                Ok::<Seq<CheckedMoveView>, ChessErrors>(views(result@)),
            ),
        decreases ms.len() - k,
    {
        let move_to_try = candidate_moves[k];
        assert(move_locations_ok(ms[k as int]));
        proof {
            lemma_level5_step(g, ms, k as int, views(result@));
        }
        let entry = checked_entry(game, &move_to_try);
        match entry {
            Err(e) => {
                proof {
                    lemma_level5_sticks(g, ms, k + 1);
                }
                return Err(e);
            },
            Ok(None) => {},
            Ok(Some(c)) => {
                let ghost before = result@;
                result.push(c);
                assert(views(result@) =~= views(before).push(c@));
            },
        }
        k = k + 1;
    }
    assert(ms.take(ms.len() as int) =~= ms);
    Ok(result)
}

/// The moves of `piece` that do not leave its king in check, each with the
/// check it gives and the position it leads to.
pub fn generate_moves_level_5(piece: &PieceRecord, game: &GameState) -> (r: Result<GenerateLevel5Result, ChessErrors>)
    requires
        single_square(piece.location),
        room_for_two_moves(game@),
    ensures
        reports(r, level5_moves(*piece, game@)),
{
    let masks = CollisionMasks::from(game);
    let special_flags = SpecialMoveFlags::from(game);
    proof {
        if let Some(e) = game@.en_passant_square {
            lemma_single_at((e % 8) as int, (e / 8) as int);
        }
        lemma_level4_located(*piece, masks, special_flags, game@);
    }
    let candidate_moves = generate_moves_level_4(piece, &masks, &special_flags, game)?;
    checked_entries(game, &candidate_moves)
}

} // verus!
