//! The random-move engine: plays a legal move picked at random.

use vstd::prelude::*;
use rand::prelude::IndexedRandom;
use rand::seq::IteratorRandom;
use crate::chess_errors::ChessErrors;
use crate::generate_all_moves::{all_checked_moves, generate_all_moves};
use crate::generate_moves_level_5::{Level5, room_for_two_moves, views};
use crate::inspect_check::too_many_checkers;
use crate::move_description::MoveDescription;
use crate::engine_trait::{Engine, EngineOutput, GoParams};
use crate::game_state::GameState;
use crate::legal_move_generator::{annotation_ok, generation_ok, has_legal_move, legal_count, legal_move, lemma_legal_count, LegalMoveGenerator};
use crate::move_generator::MoveGenerator;
use crate::text::{append_decimal, decimal_chars};

verus! {

/// `IndexedRandom::choose` of the `rand` crate on a slice of moves, with the
/// thread-local generator `rand::rng()`: `None` for an empty slice, else one
/// of its elements, picked at random.
#[verifier::external_body]
pub(crate) fn pick_random_move(moves: &[u64]) -> (r: Option<u64>)
    ensures
        r is None <==> moves@.len() == 0,
        r matches Some(m) ==> moves@.contains(m),
{
    moves.choose(&mut rand::rng()).copied()
}

/// The descriptions of a list of generated moves.
pub(crate) fn descriptions_of(moves: &Vec<crate::move_generator::GeneratedMove>) -> (r: Vec<u64>)
    ensures
        r@.len() == moves@.len(),
        forall|i: int| 0 <= i < r@.len() ==> r@[i] == #[trigger] moves@[i].move_description,
{
    let mut out: Vec<u64> = Vec::with_capacity(moves.len());
    let mut i: usize = 0;
    while i < moves.len()
        invariant
            i <= moves.len(),
            out@.len() == i,
            forall|j: int| 0 <= j < i ==> out@[j] == #[trigger] moves@[j].move_description,
        decreases moves.len() - i,
    {
        out.push(moves[i].move_description);
        i = i + 1;
    }
    out
}

/// An info line: `prefix` followed by a number.
pub(crate) fn info_line(prefix: &str, n: u64) -> (r: String)
    ensures
        r@ == prefix@ + decimal_chars(n as nat),
{
    let mut s = String::from_str(prefix);
    append_decimal(&mut s, n);
    s
}

/// The engine that plays a random legal move.
pub struct RandomEngine {
    move_generator: LegalMoveGenerator,
}

impl RandomEngine {
    pub fn new() -> (r: Self) {
        RandomEngine { move_generator: LegalMoveGenerator }
    }
}

impl Default for RandomEngine {
    fn default() -> (r: Self) {
        RandomEngine::new()
    }
}

impl Engine for RandomEngine {
    fn name(&self) -> (r: &str)
        ensures
            r@ == "PlumChess Random"@,
    {
        "PlumChess Random"
    }

    fn author(&self) -> (r: &str)
        ensures
            r@ == "jwkunz+codex"@,
    {
        "jwkunz+codex"
    }

    /// A legal move picked at random, with a line giving the number of
    /// legal moves (and one echoing a requested depth); no move when there
    /// is none. Fails when the legal moves cannot be generated.
    fn choose_move(&mut self, game_state: &GameState, params: &GoParams) -> (r: Result<EngineOutput, String>)
        ensures
            r is Ok <==> (generation_ok(game_state@) && forall|m: u64|
                #[trigger] legal_move(game_state@, m) ==> annotation_ok(game_state@, m)),
            r matches Ok(out) ==> {
                &&& out.best_move is None <==> !has_legal_move(game_state@)
                &&& out.best_move matches Some(m) ==> legal_move(game_state@, m)
                &&& out.info_lines@.len() == if params.depth is Some { 2int } else { 1int }
                &&& out.info_lines@[0]@ == "info string random_engine legal_moves "@ + decimal_chars(
                    legal_count(game_state@),
                )
                &&& params.depth matches Some(d) ==> out.info_lines@[1]@
                    == "info string random_engine requested_depth "@ + decimal_chars(d as nat)
            },
    {
        let legal_moves = match self.move_generator.generate_legal_moves(game_state) {
            Ok(m) => m,
            Err(e) => {
                return Err(e.message());
            },
        };
        proof {
            lemma_legal_count(game_state@, legal_moves@, true);
        }
        let mut out = EngineOutput::default();
        out.info_lines.push(info_line("info string random_engine legal_moves ", legal_moves.len() as u64));
        if let Some(depth) = params.depth {
            out.info_lines.push(info_line("info string random_engine requested_depth ", depth as u64));
        }
        if legal_moves.len() == 0 {
            proof {
                assert forall|m: u64| !legal_move(game_state@, m) by {
                    if legal_move(game_state@, m) {
                        let i = choose|i: int| 0 <= i < legal_moves@.len() && legal_moves@[i].move_description == m;
                    }
                }
            }
            out.best_move = None;
            return Ok(out);
        }
        let descriptions = descriptions_of(&legal_moves);
        let picked = match pick_random_move(descriptions.as_slice()) {
            Some(m) => m,
            None => {
                return Err(String::from_str("failed to choose a random move"));
            },
        };
        proof {
            let i = descriptions@.index_of(picked);
            assert(legal_moves@[i].move_description == picked);
            assert(legal_move(game_state@, legal_moves@[0].move_description));
        }
        out.best_move = Some(picked);
        Ok(out)
    }
}

/// `IteratorRandom::choose` of the `rand` crate on the index range `0..n`,
/// with the thread-local generator `rand::rng()`: `None` when `n` is 0,
/// else an index below `n`, picked at random.
#[verifier::external_body]
fn pick_random_index(n: usize) -> (r: Option<usize>)
    ensures
        r is None <==> n == 0,
        r matches Some(i) ==> i < n,
{
    (0..n).choose(&mut rand::rng())
}

/// A random checked move of the side to move: the error met generating
/// the moves, `NoLegalMoves` when there is none, else the description of
/// one of them, picked at random.
pub fn choose_random_checked_move(game: &GameState) -> (r: Result<MoveDescription, ChessErrors>)
    requires
        room_for_two_moves(game@),
    ensures
        match all_checked_moves(game@) {
            Level5::Done(Ok(s)) => if s.len() == 0 {
                r == Err::<MoveDescription, ChessErrors>(ChessErrors::NoLegalMoves)
            } else {
                r matches Ok(d) && exists|i: int| 0 <= i < s.len() && s[i].checked_move.description == d
            },
            Level5::Done(Err(e)) => r == Err::<MoveDescription, ChessErrors>(e),
            Level5::TooManyCheckers => r matches Err(e) && too_many_checkers(e),
        },
{
    let moves = generate_all_moves(game)?;
    match pick_random_index(moves.len()) {
        Some(i) => {
            let d = moves[i].checked_move.description;
            assert(views(moves@)[i as int].checked_move.description == d);
            Ok(d)
        },
        None => Err(ChessErrors::NoLegalMoves),
    }
}

} // verus!
