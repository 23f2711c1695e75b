//! The greedy engine: plays a legal move capturing the most valuable piece,
//! picked at random among equally good ones.

use vstd::prelude::*;
use crate::chess_types::{kind_of_index, PieceKind};
use crate::engine_random::{descriptions_of, info_line, pick_random_move};
use crate::engine_trait::{Engine, EngineOutput, GoParams};
use crate::game_state::GameState;
use crate::legal_move_generator::{
    annotation_ok, generation_ok, has_legal_move, legal_count, legal_move, lemma_legal_count,
    LegalMoveGenerator,
};
use crate::move_descriptions::{move_captured_piece_code, mv_captured, piece_kind_from_code, NO_PIECE_CODE};
use crate::move_generator::MoveGenerator;
use crate::text::decimal_chars;

verus! {

/// Value of a piece kind for capture ordering.
pub open spec fn greedy_value(k: PieceKind) -> int {
    match k {
        PieceKind::Pawn => 100,
        PieceKind::Knight => 320,
        PieceKind::Bishop => 330,
        PieceKind::Rook => 500,
        PieceKind::Queen => 900,
        PieceKind::King => 20000,
    }
}

/// Value of what a move captures (0 for none).
pub open spec fn capture_value(m: u64) -> int {
    if mv_captured(m) == 7 {
        0
    } else {
        match kind_of_index(mv_captured(m) as int) {
            Some(k) => greedy_value(k),
            None => 0,
        }
    }
}

/// A move's captured code names no piece kind and is not "none".
pub open spec fn bad_capture_code(m: u64) -> bool {
    mv_captured(m) != 7 && kind_of_index(mv_captured(m) as int) is None
}

/// The engine that plays the most valuable capture.
pub struct GreedyEngine {
    move_generator: LegalMoveGenerator,
}

impl GreedyEngine {
    pub fn new() -> (r: Self) {
        GreedyEngine { move_generator: LegalMoveGenerator }
    }

    /// Value of a piece kind for capture ordering.
    fn piece_value(piece: PieceKind) -> (r: i32)
        ensures
            r == greedy_value(piece),
    {
        match piece {
            PieceKind::Pawn => 100,
            PieceKind::Knight => 320,
            PieceKind::Bishop => 330,
            PieceKind::Rook => 500,
            PieceKind::Queen => 900,
            PieceKind::King => 20000,
        }
    }
}

impl Default for GreedyEngine {
    fn default() -> (r: Self) {
        GreedyEngine::new()
    }
}

impl Engine for GreedyEngine {
    fn name(&self) -> (r: &str)
        ensures
            r@ == "PlumChess Greedy"@,
    {
        "PlumChess Greedy"
    }

    fn author(&self) -> (r: &str)
        ensures
            r@ == "jwkunz+codex"@,
    {
        "jwkunz+codex"
    }

    /// A legal move of greatest capture value, picked at random among the
    /// best; no move when there is none. Fails when the legal moves cannot
    /// be generated or a legal move records an unknown captured piece.
    fn choose_move(&mut self, game_state: &GameState, params: &GoParams) -> (r: Result<EngineOutput, String>)
        ensures
            (generation_ok(game_state@) && forall|m: u64|
                #[trigger] legal_move(game_state@, m) ==> annotation_ok(game_state@, m) && !bad_capture_code(m))
                ==> r is Ok,
            r is Ok ==> generation_ok(game_state@),
            r matches Ok(out) ==> {
                &&& out.best_move is None <==> !has_legal_move(game_state@)
                &&& out.best_move matches Some(m) ==> legal_move(game_state@, m) && forall|m2: u64|
                    #[trigger] legal_move(game_state@, m2) ==> capture_value(m2) <= capture_value(m)
                &&& out.info_lines@[0]@ == "info string greedy_engine legal_moves "@ + decimal_chars(
                    legal_count(game_state@),
                )
            },
    {
        let legal_moves = match self.move_generator.generate_legal_moves(game_state) {
            Ok(m) => m,
            Err(e) => {
                return Err(e.message());
            },
        };
        let ghost v = game_state@;
        proof {
            lemma_legal_count(v, legal_moves@, true);
        }
        let mut out = EngineOutput::default();
        out.info_lines.push(info_line("info string greedy_engine legal_moves ", legal_moves.len() as u64));
        if let Some(depth) = params.depth {
            out.info_lines.push(info_line("info string greedy_engine requested_depth ", depth as u64));
        }
        if legal_moves.len() == 0 {
            proof {
                assert forall|m: u64| !legal_move(v, m) by {
                    if legal_move(v, m) {
                        let i = choose|i: int| 0 <= i < legal_moves@.len() && legal_moves@[i].move_description == m;
                    }
                }
            }
            return Ok(out);
        }
        let descriptions = descriptions_of(&legal_moves);
        let mut best_value: i32 = i32::MIN;
        let mut best_moves: Vec<u64> = Vec::new();
        let mut i: usize = 0;
        while i < descriptions.len()
            invariant
                i <= descriptions.len(),
                v == game_state@,
                i == 0 ==> best_value == i32::MIN,
                descriptions@.len() == legal_moves@.len(),
                forall|j: int| 0 <= j < descriptions@.len() ==> descriptions@[j] == #[trigger] legal_moves@[j].move_description,
                crate::legal_move_generator::lists_legal_moves(v, legal_moves@, true),
                forall|j: int| 0 <= j < i ==> !bad_capture_code(#[trigger] descriptions@[j]),
                forall|j: int| 0 <= j < i ==> capture_value(#[trigger] descriptions@[j]) <= best_value,
                i > 0 ==> best_moves@.len() > 0,
                forall|k: int| 0 <= k < best_moves@.len() ==> capture_value(#[trigger] best_moves@[k]) == best_value
                    && descriptions@.contains(best_moves@[k]),
            decreases descriptions.len() - i,
        {
            let m = descriptions[i];
            let capture_code = move_captured_piece_code(m);
            let capture_value: i32 = if capture_code == NO_PIECE_CODE {
                0
            } else {
                match piece_kind_from_code(capture_code) {
                    Some(piece) => GreedyEngine::piece_value(piece),
                    None => {
                        proof {
                            assert(legal_move(v, legal_moves@[i as int].move_description));
                            assert(bad_capture_code(m));
                        }
                        let mut msg = String::from_str("invalid captured piece code: ");
                        crate::text::append_decimal(&mut msg, capture_code);
                        return Err(msg);
                    },
                }
            };
            assert(capture_value == crate::engine_greedy::capture_value(m));
            if capture_value > best_value {
                best_value = capture_value;
                best_moves = Vec::new();
                best_moves.push(m);
            } else if capture_value == best_value {
                best_moves.push(m);
            }
            proof {
                assert(descriptions@.contains(descriptions@[i as int]));
            }
            i = i + 1;
        }
        let picked = match pick_random_move(best_moves.as_slice()) {
            Some(m) => m,
            None => {
                return Err(String::from_str("failed to choose greedy best move"));
            },
        };
        proof {
            let k = best_moves@.index_of(picked);
            let j = descriptions@.index_of(picked);
            assert(legal_moves@[j].move_description == picked);
            assert forall|m2: u64| #[trigger] legal_move(v, m2) implies capture_value(m2) <= capture_value(picked) by {
                let j2 = choose|j2: int| 0 <= j2 < legal_moves@.len() && legal_moves@[j2].move_description == m2;
                assert(descriptions@[j2] == m2);
            }
        }
        out.info_lines.push(info_line_signed("info string greedy_engine capture_score ", best_value));
        out.best_move = Some(picked);
        Ok(out)
    }
}

/// An info line: `prefix` followed by a non-negative number.
fn info_line_signed(prefix: &str, n: i32) -> (r: String)
    requires
        n >= 0,
    ensures
        r@ == prefix@ + decimal_chars(n as nat),
{
    info_line(prefix, n as u64)
}


/// The greedy capture value ranks captures by conventional worth: taking
/// nothing is worth less than taking a pawn, which is worth less than a
/// knight, then bishop, rook, queen and king (captured codes 0 to 5 in that
/// order).
pub proof fn lemma_capture_value_ranks_by_worth(m1: u64, m2: u64)
    requires
        !bad_capture_code(m1),
        !bad_capture_code(m2),
    ensures
        (if mv_captured(m1) == 7 { -1int } else { mv_captured(m1) as int }) < (if mv_captured(m2) == 7 {
            -1int
        } else {
            mv_captured(m2) as int
        }) ==> capture_value(m1) < capture_value(m2),
{
}

/// A move of greatest capture value among the legal moves (the greedy
/// engine's choice) takes a queen or the king whenever some legal move
/// takes a queen: it never settles for less, such as a pawn.
pub proof fn lemma_greedy_best_takes_queen(v: crate::game_state::GameStateView, m: u64, q: u64)
    requires
        legal_move(v, m),
        !bad_capture_code(m),
        forall|m2: u64| #[trigger] legal_move(v, m2) ==> capture_value(m2) <= capture_value(m),
        legal_move(v, q),
        mv_captured(q) == PieceKind::Queen.idx(),
    ensures
        mv_captured(m) == PieceKind::Queen.idx() || mv_captured(m) == PieceKind::King.idx(),
{
    assert(capture_value(q) <= capture_value(m));
    if !(mv_captured(m) == 4 || mv_captured(m) == 5) {
        lemma_capture_value_ranks_by_worth(m, q);
    }
}

} // verus!
