//! Full legal move generation: pseudo-legal moves of every piece, kept when
//! the mover's king is not left in check, with optional check annotations.

use vstd::prelude::*;
use crate::bits::bit;
use crate::chess_types::{kind_of_index, Color, PieceKind, Square};
use crate::game_state::{GameState, GameStateView};
use crate::legal_move_apply::{applied, apply_move, make_fails_late, make_overflows, makeable, placed_kind};
use crate::legal_move_checks::{attacker_rank, attackers_to_square, attacks_from, is_king_in_check, king_in_check, king_sq, king_square};
use crate::legal_moves_bishop::generate_bishop_moves;
use crate::legal_moves_king::{generate_king_moves, is_king_move, king_step, lemma_castle_code};
use crate::legal_moves_knight::generate_knight_moves;
use crate::legal_moves_pawn::{generate_pawn_moves, is_pawn_move, lemma_pawn_moves_distinct, pawn_moves_from, pawns_on_board};
use crate::legal_moves_queen::generate_queen_moves;
use crate::legal_moves_rook::generate_rook_moves;
use crate::move_descriptions::{move_from, move_moved_piece_code, move_promotion_piece_code, move_to, mv_from, mv_moved, mv_to, piece_kind_from_code};
use crate::move_generator::{no_annotations, GeneratedMove, MoveAnnotations, MoveGenResult, MoveGenerationError, MoveGenerator};
use crate::piece_moves::{is_piece_move, lemma_extends_concat, lemma_step_move_fields, own_board, step_move, step_target};

verus! {

/// `m` is a pseudo-legal move of the side to move: a move of one of its
/// pieces by that piece's rules, ignoring whether the king is left in check.
pub open spec fn is_pseudo_move(v: GameStateView, m: u64) -> bool {
    ||| is_pawn_move(v, m)
    ||| is_piece_move(v, PieceKind::Knight, m)
    ||| is_piece_move(v, PieceKind::Bishop, m)
    ||| is_piece_move(v, PieceKind::Rook, m)
    ||| is_piece_move(v, PieceKind::Queen, m)
    ||| is_king_move(v, m)
}

/// `m` can be applied to `v` without error.
pub open spec fn applicable(v: GameStateView, m: u64) -> bool {
    makeable(v, m) && !make_fails_late(v, m)
}

/// `m` is a legal move: pseudo-legal, applicable, and not leaving the
/// mover's king in check.
pub open spec fn legal_move(v: GameStateView, m: u64) -> bool {
    &&& is_pseudo_move(v, m)
    &&& applicable(v, m)
    &&& !king_in_check(applied(v, m), v.side_to_move)
}

/// The side to move has a legal move.
pub open spec fn has_legal_move(v: GameStateView) -> bool {
    exists|m: u64| legal_move(v, m)
}

/// Generation can run on `v`: Light, to move, has no pawn on its last rank,
/// and every pseudo-legal move can be applied.
pub open spec fn generation_ok(v: GameStateView) -> bool {
    &&& pawns_on_board(v)
    &&& forall|m: u64| #[trigger] is_pseudo_move(v, m) ==> applicable(v, m)
}

/// `e` is a piece of side `c` attacking square `k`.
pub open spec fn is_attacker(v: GameStateView, c: Color, e: (Square, PieceKind), k: u64) -> bool {
    e.0 < 64 && attacks_from(v, c, e.1, e.0 as u64, k)
}

/// Sign of an integer.
pub open spec fn sign(x: int) -> int {
    if x > 0 {
        1
    } else if x < 0 {
        -1
    } else {
        0
    }
}

/// Absolute value of an integer.
pub open spec fn abs_int(x: int) -> int {
    if x < 0 {
        -x
    } else {
        x
    }
}

/// `x` moved `t` steps in the direction of sign `s`.
pub open spec fn stepped(x: int, t: int, s: int) -> int {
    if s > 0 {
        x + t
    } else if s < 0 {
        x - t
    } else {
        x
    }
}

/// `mid` lies strictly between squares `a` and `b` on a common rank, file
/// or diagonal.
pub open spec fn square_between(mid: int, a: int, b: int) -> bool {
    let af = a % 8;
    let ar = a / 8;
    let df = b % 8 - af;
    let dr = b / 8 - ar;
    let n = if abs_int(df) > abs_int(dr) {
        abs_int(df)
    } else {
        abs_int(dr)
    };
    &&& mid != a
    &&& mid != b
    &&& (df == 0 || dr == 0 || abs_int(df) == abs_int(dr))
    &&& exists|t: int| 0 < t < n && mid % 8 == stepped(af, t, sign(df)) && mid / 8 == stepped(ar, t, sign(dr))
}

/// The checker is a slider and the moved piece left the line between it and
/// the king.
pub open spec fn discovered_line(from: u64, checker: (Square, PieceKind), king: u64) -> bool {
    &&& (checker.1 == PieceKind::Bishop || checker.1 == PieceKind::Rook || checker.1 == PieceKind::Queen)
    &&& square_between(from as int, checker.0 as int, king as int)
}

/// The square of the king of the side to move (meaningful when it has one).
pub open spec fn defender_king(v: GameStateView) -> u64 {
    king_sq(v, v.side_to_move).unwrap()
}

/// Side `c` attacks the king of the side to move in `v`.
pub open spec fn checked_by(v: GameStateView, c: Color) -> bool {
    &&& king_sq(v, v.side_to_move) is Some
    &&& exists|e: (Square, PieceKind)| #[trigger] is_attacker(v, c, e, defender_king(v))
}

/// The check annotations of move `m` from `prev` to `next`: whether the
/// defender's king is attacked, by two pieces, only by a slider whose line
/// the moved piece left, and whether the defender has no legal reply.
pub open spec fn annotations_of(prev: GameStateView, m: u64, next: GameStateView) -> MoveAnnotations {
    let c = prev.side_to_move;
    let k = defender_king(next);
    if !checked_by(next, c) {
        no_annotations()
    } else {
        let double = exists|e1: (Square, PieceKind), e2: (Square, PieceKind)|
            e1 != e2 && #[trigger] is_attacker(next, c, e1, k) && #[trigger] is_attacker(next, c, e2, k);
        let placed = placed_kind(m, kind_of_index(mv_moved(m) as int).unwrap());
        let by_mover = is_attacker(next, c, (mv_to(m) as u8, placed), k);
        let discovery = !double && !by_mover && exists|e: (Square, PieceKind)|
            #[trigger] is_attacker(next, c, e, k) && discovered_line(mv_from(m), e, k);
        MoveAnnotations {
            gives_check: true,
            is_discovery_check: discovery,
            is_double_check: double,
            is_checkmate: !has_legal_move(next),
        }
    }
}

/// Annotating `m` succeeds: the move gives no check, or its moving code
/// names a piece and the defender's replies can be generated.
pub open spec fn annotation_ok(v: GameStateView, m: u64) -> bool {
    checked_by(applied(v, m), v.side_to_move) ==> (kind_of_index(mv_moved(m) as int) is Some
        && generation_ok(applied(v, m)))
}

/// `moves` lists each legal move of `v` once, with the position after it
/// and (when `annotate`) its check annotations, else no annotations.
pub open spec fn lists_legal_moves(v: GameStateView, moves: Seq<GeneratedMove>, annotate: bool) -> bool {
    &&& forall|i: int|
        0 <= i < moves.len() ==> {
            let md = #[trigger] moves[i].move_description;
            &&& legal_move(v, md)
            &&& moves[i].game_after_move@ == applied(v, md)
            &&& moves[i].annotations == if annotate {
                annotations_of(v, md, applied(v, md))
            } else {
                no_annotations()
            }
        }
    &&& forall|m: u64|
        #[trigger] legal_move(v, m) ==> exists|i: int| 0 <= i < moves.len() && moves[i].move_description == m
    &&& forall|i: int, j: int|
        0 <= i < j < moves.len() ==> #[trigger] moves[i].move_description != #[trigger] moves[j].move_description
}

/// Facts about the moves of one pawn kind of generator.
proof fn lemma_pawn_move_facts(v: GameStateView, m: u64)
    requires
        is_pawn_move(v, m),
    ensures
        mv_moved(m) == 0,
        !make_overflows(v, m),
{
    let from = choose|from: u64|
        #![trigger pawn_moves_from(v, from)]
        from < 64 && bit(own_board(v, PieceKind::Pawn), from) && pawn_moves_from(v, from).contains(m);
    lemma_pawn_moves_distinct(v, from);
    let i = pawn_moves_from(v, from).index_of(m);
    assert(pawn_moves_from(v, from)[i] == m);
}

/// Facts about the moves of the step generators.
proof fn lemma_piece_move_facts(v: GameStateView, k: PieceKind, m: u64)
    requires
        is_piece_move(v, k, m),
    ensures
        mv_moved(m) == k.idx(),
        !make_overflows(v, m),
{
    let (f, t) = choose|f: u64, t: u64|
        #![trigger step_move(v, k, f, t)]
        f < 64 && bit(own_board(v, k), f) && step_target(v, k, f, t) && m == step_move(v, k, f, t);
    lemma_step_move_fields(v, k, f, t);
}

/// Facts about king moves.
proof fn lemma_king_move_facts(v: GameStateView, m: u64)
    requires
        is_king_move(v, m),
    ensures
        mv_moved(m) == 5,
        !make_overflows(v, m),
{
    let s = king_sq(v, v.side_to_move).unwrap();
    if king_step(v, s, m) {
        let t = choose|t: u64|
            #![trigger step_move(v, PieceKind::King, s, t)]
            step_target(v, PieceKind::King, s, t) && m == step_move(v, PieceKind::King, s, t);
        crate::legal_move_checks::lemma_king_sq_bound(v, v.side_to_move);
        lemma_step_move_fields(v, PieceKind::King, s, t);
    } else {
        lemma_castle_code(4, 6);
        lemma_castle_code(4, 2);
        lemma_castle_code(60, 62);
        lemma_castle_code(60, 58);
    }
}

/// A pseudo-legal move names its moving kind and never shifts off the board
/// when made.
pub proof fn lemma_pseudo_move_facts(v: GameStateView, m: u64)
    requires
        is_pseudo_move(v, m),
    ensures
        kind_of_index(mv_moved(m) as int) is Some,
        !make_overflows(v, m),
{
    if is_pawn_move(v, m) {
        lemma_pawn_move_facts(v, m);
    } else if is_piece_move(v, PieceKind::Knight, m) {
        lemma_piece_move_facts(v, PieceKind::Knight, m);
    } else if is_piece_move(v, PieceKind::Bishop, m) {
        lemma_piece_move_facts(v, PieceKind::Bishop, m);
    } else if is_piece_move(v, PieceKind::Rook, m) {
        lemma_piece_move_facts(v, PieceKind::Rook, m);
    } else if is_piece_move(v, PieceKind::Queen, m) {
        lemma_piece_move_facts(v, PieceKind::Queen, m);
    } else {
        lemma_king_move_facts(v, m);
    }
}

/// All pseudo-legal moves of the side to move, each once: pawn, knight,
/// bishop, rook, queen, then king moves.
fn generate_pseudo_moves(game_state: &GameState) -> (r: Vec<u64>)
    requires
        pawns_on_board(game_state@),
    ensures
        r@.no_duplicates(),
        forall|m: u64| #[trigger] r@.contains(m) <==> is_pseudo_move(game_state@, m),
{
    let ghost v = game_state@;
    let mut pseudo: Vec<u64> = Vec::with_capacity(128);
    let ghost a0 = pseudo@;
    generate_pawn_moves(game_state, &mut pseudo);
    let ghost a1 = pseudo@;
    generate_knight_moves(game_state, &mut pseudo);
    let ghost a2 = pseudo@;
    generate_bishop_moves(game_state, &mut pseudo);
    let ghost a3 = pseudo@;
    generate_rook_moves(game_state, &mut pseudo);
    let ghost a4 = pseudo@;
    generate_queen_moves(game_state, &mut pseudo);
    let ghost a5 = pseudo@;
    generate_king_moves(game_state, &mut pseudo);
    proof {
        let p1 = |m: u64| is_pawn_move(v, m);
        let p2 = |m: u64| is_piece_move(v, PieceKind::Knight, m);
        let p3 = |m: u64| is_piece_move(v, PieceKind::Bishop, m);
        let p4 = |m: u64| is_piece_move(v, PieceKind::Rook, m);
        let p5 = |m: u64| is_piece_move(v, PieceKind::Queen, m);
        let p6 = |m: u64| is_king_move(v, m);
        let q2 = |m: u64| p1(m) || p2(m);
        let q3 = |m: u64| q2(m) || p3(m);
        let q4 = |m: u64| q3(m) || p4(m);
        let q5 = |m: u64| q4(m) || p5(m);
        assert forall|m: u64| #[trigger] p1(m) implies mv_moved(m) == 0 by {
            {
                lemma_pawn_move_facts(v, m);
            }
        }
        assert forall|m: u64| #[trigger] p2(m) implies mv_moved(m) == 1 by {
            {
                lemma_piece_move_facts(v, PieceKind::Knight, m);
            }
        }
        assert forall|m: u64| #[trigger] p3(m) implies mv_moved(m) == 2 by {
            {
                lemma_piece_move_facts(v, PieceKind::Bishop, m);
            }
        }
        assert forall|m: u64| #[trigger] p4(m) implies mv_moved(m) == 3 by {
            {
                lemma_piece_move_facts(v, PieceKind::Rook, m);
            }
        }
        assert forall|m: u64| #[trigger] p5(m) implies mv_moved(m) == 4 by {
            {
                lemma_piece_move_facts(v, PieceKind::Queen, m);
            }
        }
        assert forall|m: u64| #[trigger] p6(m) implies mv_moved(m) == 5 by {
            {
                lemma_king_move_facts(v, m);
            }
        }
        assert forall|m: u64| !(#[trigger] p1(m) && p2(m)) by {
            if p1(m) && p2(m) {
                assert(mv_moved(m) == 0);
            }
        }
        lemma_extends_concat(a0, a1, a2, p1, p2);
        assert forall|m: u64| !(#[trigger] q2(m) && p3(m)) by {
            if p1(m) || p2(m) {
                assert(mv_moved(m) < 2);
            }
        }
        lemma_extends_concat(a0, a2, a3, q2, p3);
        assert forall|m: u64| !(#[trigger] q3(m) && p4(m)) by {
            if p1(m) || p2(m) || p3(m) {
                assert(mv_moved(m) < 3);
            }
        }
        lemma_extends_concat(a0, a3, a4, q3, p4);
        assert forall|m: u64| !(#[trigger] q4(m) && p5(m)) by {
            if p1(m) || p2(m) || p3(m) || p4(m) {
                assert(mv_moved(m) < 4);
            }
        }
        lemma_extends_concat(a0, a4, a5, q4, p5);
        assert forall|m: u64| !(#[trigger] q5(m) && p6(m)) by {
            if p1(m) || p2(m) || p3(m) || p4(m) || p5(m) {
                assert(mv_moved(m) < 5);
            }
        }
        lemma_extends_concat(a0, a5, pseudo@, q5, p6);
        assert(a0 =~= Seq::<u64>::empty());
        assert(pseudo@.skip(0) =~= pseudo@);
        assert(crate::piece_moves::appended(a0, pseudo@) =~= pseudo@);
        let q6 = |m: u64| q5(m) || p6(m);
        assert forall|m: u64| #[trigger] pseudo@.contains(m) <==> is_pseudo_move(v, m) by {
            assert(crate::piece_moves::appended(a0, pseudo@).contains(m) <==> q6(m));
        }
    }
    pseudo
}

/// Single-square masks of Light's last rank.
proof fn lemma_last_rank_mask(b: u64, j: u64)
    by (bit_vector)
    requires
        j < 64,
    ensures
        bit(b & 0xff00_0000_0000_0000u64, j) <==> (bit(b, j) && j >= 56),
{
}

/// Whether Light, to move, has a pawn on its last rank.
fn light_pawn_on_last_rank(game_state: &GameState) -> (r: bool)
    ensures
        r == !pawns_on_board(game_state@),
{
    match game_state.side_to_move {
        Color::Dark => false,
        Color::Light => {
            let pawns = game_state.pieces[0][0];
            let hit = pawns & 0xff00_0000_0000_0000u64;
            proof {
                crate::bits::lemma_zero_iff_empty(hit);
                assert forall|j: u64| j < 64 implies #[trigger] bit(hit, j) == (bit(pawns, j) && j >= 56) by {
                    lemma_last_rank_mask(pawns, j);
                }
                if hit != 0 {
                    let j = choose|j: u64| j < 64 && bit(hit, j);
                    assert(game_state@.has(Color::Light, PieceKind::Pawn, j));
                } else {
                    assert forall|sq: u64| 56 <= sq < 64 implies !#[trigger] game_state@.has(Color::Light, PieceKind::Pawn, sq) by {
                        lemma_last_rank_mask(pawns, sq);
                    }
                }
            }
            hit != 0
        },
    }
}

/// Whether `mid` lies strictly between `a` and `b` on a rank, file or
/// diagonal.
fn is_square_between(mid: u8, a: u8, b: u8) -> (r: bool)
    requires
        mid < 64,
        a < 64,
        b < 64,
    ensures
        r == square_between(mid as int, a as int, b as int),
{
    if mid == a || mid == b {
        return false;
    }
    let af = (a % 8) as i8;
    let ar = (a / 8) as i8;
    let bf = (b % 8) as i8;
    let br = (b / 8) as i8;
    let mf = (mid % 8) as i8;
    let mr = (mid / 8) as i8;
    let df = bf - af;
    let dr = br - ar;
    let step_f: i8 = if df > 0 {
        1
    } else if df < 0 {
        -1
    } else {
        0
    };
    let step_r: i8 = if dr > 0 {
        1
    } else if dr < 0 {
        -1
    } else {
        0
    };
    let adf: i8 = if df < 0 {
        -df
    } else {
        df
    };
    let adr: i8 = if dr < 0 {
        -dr
    } else {
        dr
    };
    let aligned = df == 0 || dr == 0 || adf == adr;
    if !aligned {
        return false;
    }
    let ghost n: int = if adf > adr {
        adf as int
    } else {
        adr as int
    };
    let mut f = af + step_f;
    let mut r = ar + step_r;
    let ghost mut t: int = 1;
    while f != bf || r != br
        invariant
            0 <= af < 8,
            0 <= ar < 8,
            0 <= bf < 8,
            0 <= br < 8,
            mf == mid % 8,
            mr == mid / 8,
            af == a % 8,
            ar == a / 8,
            bf == b % 8,
            br == b / 8,
            df == bf - af,
            dr == br - ar,
            step_f == sign(df as int),
            step_r == sign(dr as int),
            adf == abs_int(df as int),
            adr == abs_int(dr as int),
            df == 0 || dr == 0 || adf == adr,
            n == if adf > adr {
                adf as int
            } else {
                adr as int
            },
            1 <= t,
            n >= 1 ==> t <= n,
            n == 0 ==> f == bf && r == br,
            f == stepped(af as int, t, sign(df as int)),
            r == stepped(ar as int, t, sign(dr as int)),
            forall|u: int|
                0 < u < t ==> !(mf == stepped(af as int, u, sign(df as int)) && mr == stepped(
                    ar as int,
                    u,
                    sign(dr as int),
                )),
        decreases n - t,
    {
        if f == mf && r == mr {
            assert(t < n);
            assert(0 < t < n && mid % 8 == stepped(af as int, t, sign(df as int)) && mid / 8 == stepped(ar as int, t, sign(dr as int)));
            return true;
        }
        f = f + step_f;
        r = r + step_r;
        proof {
            t = t + 1;
        }
    }
    proof {
        assert(n >= 1 ==> t == n);
    }
    false
}

/// Whether the checker is a slider whose line to the king the moved piece
/// (from `from`) left.
fn is_discovered_line_check(from: u8, checker: (u8, PieceKind), king_sq: u8) -> (r: bool)
    requires
        from < 64,
        checker.0 < 64,
        king_sq < 64,
    ensures
        r == discovered_line(from as u64, checker, king_sq as u64),
{
    let (checker_sq, checker_piece) = checker;
    match checker_piece {
        PieceKind::Bishop | PieceKind::Rook | PieceKind::Queen => {},
        _ => {
            return false;
        },
    }
    is_square_between(from, checker_sq, king_sq)
}

/// The message of a failed application of a move.
fn apply_failed_message(x: String) -> (r: String)
    ensures
        r@ == "apply_move failed: "@ + x@,
{
    let mut s = String::from_str("apply_move failed: ");
    s.append(x.as_str());
    s
}

/// The generator of legal moves with check annotations.
pub struct LegalMoveGenerator;

/// The generator of legal moves without annotations.
pub struct FastLegalMoveGenerator;

impl LegalMoveGenerator {
    /// The legal moves of `game_state`, annotated when `annotate`.
    ///
    /// Fails when Light, to move, has a pawn on its last rank, when a
    /// pseudo-legal move cannot be applied, or when annotating a checking
    /// move fails.
    #[verifier::rlimit(60)]
    fn generate_legal_moves_internal(&self, game_state: &GameState, annotate: bool) -> (r: MoveGenResult<
        Vec<GeneratedMove>,
    >)
        ensures
            r is Ok <==> (generation_ok(game_state@) && (annotate ==> forall|m: u64|
                #[trigger] legal_move(game_state@, m) ==> annotation_ok(game_state@, m))),
            r matches Ok(moves) ==> lists_legal_moves(game_state@, moves@, annotate),
        decreases (if annotate {
            2int
        } else {
            0int
        }),
    {
        let ghost v = game_state@;
        if light_pawn_on_last_rank(game_state) {
            return Err(MoveGenerationError::InvalidState(String::from_str("pawn on its last rank")));
        }
        let pseudo = generate_pseudo_moves(game_state);
        let mut legal: Vec<GeneratedMove> = Vec::with_capacity(pseudo.len());
        let ghost mut idxs: Seq<int> = Seq::empty();
        let mut idx: usize = 0;
        while idx < pseudo.len()
            invariant
                v == game_state@,
                pawns_on_board(v),
                pseudo@.no_duplicates(),
                forall|m: u64| #[trigger] pseudo@.contains(m) <==> is_pseudo_move(v, m),
                idx <= pseudo.len(),
                forall|j: int| 0 <= j < idx ==> applicable(v, #[trigger] pseudo@[j]),
                annotate ==> forall|j: int|
                    0 <= j < idx && legal_move(v, #[trigger] pseudo@[j]) ==> annotation_ok(v, pseudo@[j]),
                idxs.len() == legal@.len(),
                forall|k: int|
                    0 <= k < idxs.len() ==> 0 <= #[trigger] idxs[k] < idx && legal@[k].move_description
                        == pseudo@[idxs[k]],
                forall|k1: int, k2: int| 0 <= k1 < k2 < idxs.len() ==> #[trigger] idxs[k1] < #[trigger] idxs[k2],
                forall|k: int|
                    0 <= k < legal@.len() ==> {
                        let md = #[trigger] legal@[k].move_description;
                        &&& legal_move(v, md)
                        &&& legal@[k].game_after_move@ == applied(v, md)
                        &&& legal@[k].annotations == if annotate {
                            annotations_of(v, md, applied(v, md))
                        } else {
                            no_annotations()
                        }
                    },
                forall|j: int|
                    0 <= j < idx && legal_move(v, #[trigger] pseudo@[j]) ==> exists|k: int|
                        0 <= k < legal@.len() && legal@[k].move_description == pseudo@[j],
            decreases pseudo.len() - idx,
        {
            let mv = pseudo[idx];
            proof {
                assert(pseudo@.contains(mv));
                lemma_pseudo_move_facts(v, mv);
            }
            let next = match apply_move(game_state, mv) {
                Ok(n) => n,
                Err(x) => {
                    proof {
                        assert(is_pseudo_move(v, mv));
                    }
                    return Err(MoveGenerationError::InvalidState(apply_failed_message(x)));
                },
            };
            if is_king_in_check(&next, game_state.side_to_move) {
                idx = idx + 1;
                continue;
            }
            let annotations = if annotate {
                match classify_move_annotations(self, game_state, mv, &next) {
                    Ok(a) => a,
                    Err(e) => {
                        proof {
                            assert(legal_move(v, mv));
                        }
                        return Err(e);
                    },
                }
            } else {
                MoveAnnotations::default()
            };
            let ghost old_legal = legal@;
            legal.push(GeneratedMove { move_description: mv, game_after_move: next, annotations });
            proof {
                idxs = idxs.push(idx as int);
                assert forall|j: int|
                    0 <= j < idx + 1 && legal_move(v, #[trigger] pseudo@[j]) implies exists|k: int|
                        0 <= k < legal@.len() && legal@[k].move_description == pseudo@[j] by {
                    if j < idx {
                        let k = choose|k: int|
                            0 <= k < old_legal.len() && old_legal[k].move_description == pseudo@[j];
                        assert(legal@[k] == old_legal[k]);
                    } else {
                        assert(legal@[legal@.len() - 1].move_description == pseudo@[j]);
                    }
                }
                assert forall|k: int|
                    0 <= k < legal@.len() implies {
                        let md = #[trigger] legal@[k].move_description;
                        &&& legal_move(v, md)
                        &&& legal@[k].game_after_move@ == applied(v, md)
                        &&& legal@[k].annotations == if annotate {
                            annotations_of(v, md, applied(v, md))
                        } else {
                            no_annotations()
                        }
                    } by {
                    if k < old_legal.len() {
                        assert(legal@[k] == old_legal[k]);
                    }
                }
            }
            idx = idx + 1;
        }
        proof {
            assert forall|m: u64| #[trigger] is_pseudo_move(v, m) implies applicable(v, m) by {
                assert(pseudo@.contains(m));
                let j = pseudo@.index_of(m);
                assert(applicable(v, pseudo@[j]));
            }
            assert forall|m: u64| #[trigger] legal_move(v, m) implies exists|i: int|
                0 <= i < legal@.len() && legal@[i].move_description == m by {
                assert(pseudo@.contains(m));
                let j = pseudo@.index_of(m);
                assert(legal_move(v, pseudo@[j]));
            }
            if annotate {
                assert forall|m: u64| #[trigger] legal_move(v, m) implies annotation_ok(v, m) by {
                    assert(pseudo@.contains(m));
                    let j = pseudo@.index_of(m);
                    assert(legal_move(v, pseudo@[j]));
                }
            }
            assert forall|i: int, j: int|
                0 <= i < j < legal@.len() implies #[trigger] legal@[i].move_description
                    != #[trigger] legal@[j].move_description by {
                assert(idxs[i] < idxs[j]);
            }
        }
        Ok(legal)
    }
}

/// Annotating fails when the move gives check and either its moving code
/// names no piece or the defender's replies cannot be generated.
proof fn lemma_annotation_fails(v: GameStateView, m: u64, k: u64, e: (Square, PieceKind))
    requires
        king_sq(applied(v, m), applied(v, m).side_to_move) == Some(k),
        is_attacker(applied(v, m), v.side_to_move, e, k),
        !(kind_of_index(mv_moved(m) as int) is Some && generation_ok(applied(v, m))),
    ensures
        !annotation_ok(v, m),
{
    assert(defender_king(applied(v, m)) == k);
    assert(checked_by(applied(v, m), v.side_to_move));
}

/// The check annotations of `move_description`, played from `prev` to
/// reach `next`.
fn classify_move_annotations(
    generator: &LegalMoveGenerator,
    prev: &GameState,
    move_description: u64,
    next: &GameState,
) -> (r: MoveGenResult<MoveAnnotations>)
    requires
        next@ == applied(prev@, move_description),
    ensures
        r is Ok <==> annotation_ok(prev@, move_description),
        r matches Ok(a) ==> a == annotations_of(prev@, move_description, next@),
    decreases 1int,
{
    let ghost nv = next@;
    let defender_king_sq = match king_square(next, next.side_to_move) {
        Some(s) => s,
        None => {
            return Ok(MoveAnnotations::default());
        },
    };
    let ghost k = defender_king_sq as u64;
    let attacker_color = prev.side_to_move;
    let checkers = attackers_to_square(next, defender_king_sq, attacker_color);
    proof {
        assert forall|e: (Square, PieceKind)| #[trigger] is_attacker(nv, attacker_color, e, k) <==> checkers@.contains(e) by {
        }
    }
    if checkers.len() == 0 {
        proof {
            assert forall|e: (Square, PieceKind)| !#[trigger] is_attacker(nv, attacker_color, e, k) by {
                if is_attacker(nv, attacker_color, e, k) {
                    assert(checkers@.contains(e));
                }
            }
        }
        return Ok(MoveAnnotations::default());
    }
    proof {
        assert(checkers@.contains(checkers@[0]));
        assert(is_attacker(nv, attacker_color, checkers@[0], k));
        assert(is_attacker(applied(prev@, move_description), prev@.side_to_move, checkers@[0], k));
        assert(king_sq(applied(prev@, move_description), applied(prev@, move_description).side_to_move) == Some(k));
        assert(exists|e: (Square, PieceKind)| #[trigger] is_attacker(applied(prev@, move_description), prev@.side_to_move, e, k));
        assert(defender_king(nv) == k);
        assert(checked_by(nv, attacker_color));
    }
    let to = move_to(move_description);
    let code = move_moved_piece_code(move_description);
    let moved_piece = match piece_kind_from_code(code) {
        Some(p) => p,
        None => {
            proof {
                lemma_annotation_fails(prev@, move_description, k, checkers@[0]);
            }
            return Err(MoveGenerationError::InvalidState(String::from_str("invalid moved piece code")));
        },
    };
    let moved_piece_after = match piece_kind_from_code(move_promotion_piece_code(move_description)) {
        Some(p) => p,
        None => moved_piece,
    };
    let mut moved_piece_is_checker = false;
    let mut i: usize = 0;
    while i < checkers.len()
        invariant
            i <= checkers.len(),
            moved_piece_is_checker == exists|j: int| 0 <= j < i && #[trigger] checkers@[j] == (to, moved_piece_after),
        decreases checkers.len() - i,
    {
        let (sq, piece) = checkers[i];
        if sq == to && piece == moved_piece_after {
            moved_piece_is_checker = true;
        }
        i = i + 1;
    }
    proof {
        if checkers@.contains((to, moved_piece_after)) {
            let j = checkers@.index_of((to, moved_piece_after));
            assert(checkers@[j] == (to, moved_piece_after));
        }
        assert(moved_piece_is_checker == checkers@.contains((to, moved_piece_after)));
        assert(moved_piece_after == placed_kind(move_description, kind_of_index(mv_moved(move_description) as int).unwrap()));
    }
    let is_double_check = checkers.len() >= 2;
    proof {
        let dbl = exists|e1: (Square, PieceKind), e2: (Square, PieceKind)|
            e1 != e2 && #[trigger] is_attacker(nv, attacker_color, e1, k) && #[trigger] is_attacker(nv, attacker_color, e2, k);
        if checkers.len() >= 2 {
            assert(attacker_rank(checkers@[0]) < attacker_rank(checkers@[1]));
            assert(checkers@.contains(checkers@[1]));
            assert(is_attacker(nv, attacker_color, checkers@[0], k));
            assert(is_attacker(nv, attacker_color, checkers@[1], k));
            assert(dbl);
        } else {
            assert forall|e1: (Square, PieceKind), e2: (Square, PieceKind)|
                #[trigger] is_attacker(nv, attacker_color, e1, k) && #[trigger] is_attacker(nv, attacker_color, e2, k) implies e1 == e2 by {
                assert(checkers@.contains(e1));
                assert(checkers@.contains(e2));
                let i1 = checkers@.index_of(e1);
                let i2 = checkers@.index_of(e2);
            }
        }
        assert(is_double_check == dbl);
    }
    let is_discovery_check = if !is_double_check && !moved_piece_is_checker {
        let checker = checkers[0];
        let from = move_from(move_description);
        is_discovered_line_check(from, checker, defender_king_sq)
    } else {
        false
    };
    proof {
        if !is_double_check && !moved_piece_is_checker {
            let e0 = checkers@[0];
            assert forall|e: (Square, PieceKind)| #[trigger] is_attacker(nv, attacker_color, e, k) implies e == e0 by {
                assert(checkers@.contains(e));
                let ie = checkers@.index_of(e);
            }
        }
    }
    let replies = match generator.generate_legal_moves_internal(next, false) {
        Ok(moves) => moves,
        Err(e) => {
            proof {
                lemma_annotation_fails(prev@, move_description, k, checkers@[0]);
            }
            return Err(e);
        },
    };
    proof {
        if replies.len() > 0 {
            assert(legal_move(nv, replies@[0].move_description));
        } else {
            assert forall|m: u64| !legal_move(nv, m) by {
                if legal_move(nv, m) {
                    let i = choose|i: int| 0 <= i < replies@.len() && replies@[i].move_description == m;
                }
            }
        }
    }
    Ok(
        MoveAnnotations {
            gives_check: true,
            is_discovery_check,
            is_double_check,
            is_checkmate: replies.len() == 0,
        },
    )
}

impl MoveGenerator for LegalMoveGenerator {
    /// Exactly the legal moves, each once, with the positions they lead to
    /// and their check annotations.
    open spec fn generates(&self, v: GameStateView, moves: Seq<GeneratedMove>) -> bool {
        lists_legal_moves(v, moves, true)
    }

    /// Positions whose moves can be generated and annotated.
    open spec fn answers(&self, v: GameStateView) -> bool {
        generation_ok(v) && forall|m: u64| #[trigger] legal_move(v, m) ==> annotation_ok(v, m)
    }

    /// The legal moves with their check annotations.
    fn generate_legal_moves(&self, game_state: &GameState) -> (r: MoveGenResult<Vec<GeneratedMove>>)
        ensures
            r is Ok <==> (generation_ok(game_state@) && forall|m: u64|
                #[trigger] legal_move(game_state@, m) ==> annotation_ok(game_state@, m)),
            r matches Ok(moves) ==> lists_legal_moves(game_state@, moves@, true),
    {
        self.generate_legal_moves_internal(game_state, true)
    }
}

impl MoveGenerator for FastLegalMoveGenerator {
    /// Exactly the legal moves, each once, with the positions they lead to
    /// and no annotations.
    open spec fn generates(&self, v: GameStateView, moves: Seq<GeneratedMove>) -> bool {
        lists_legal_moves(v, moves, false)
    }

    /// Positions whose moves can be generated.
    open spec fn answers(&self, v: GameStateView) -> bool {
        generation_ok(v)
    }

    /// The legal moves, without annotations.
    fn generate_legal_moves(&self, game_state: &GameState) -> (r: MoveGenResult<Vec<GeneratedMove>>)
        ensures
            r is Ok <==> generation_ok(game_state@),
            r matches Ok(moves) ==> lists_legal_moves(game_state@, moves@, false),
    {
        LegalMoveGenerator.generate_legal_moves_internal(game_state, false)
    }
}

/// The legal moves of the position as packed moves, each once; the state
/// is left as it was.
pub fn generate_legal_move_descriptions_in_place(game_state: &mut GameState) -> (r: MoveGenResult<
    Vec<u64>,
>)
    ensures
        final(game_state)@ == old(game_state)@,
        r is Ok <==> generation_ok(old(game_state)@),
        r matches Ok(ms) ==> ms@.no_duplicates() && forall|m: u64|
            #[trigger] ms@.contains(m) <==> legal_move(old(game_state)@, m),
{
    let moves = match LegalMoveGenerator.generate_legal_moves_internal(game_state, false) {
        Ok(m) => m,
        Err(e) => {
            return Err(e);
        },
    };
    let ghost v = game_state@;
    let mut out: Vec<u64> = Vec::with_capacity(moves.len());
    let mut i: usize = 0;
    while i < moves.len()
        invariant
            i <= moves.len(),
            lists_legal_moves(v, moves@, false),
            out@.len() == i,
            forall|j: int| 0 <= j < i ==> out@[j] == #[trigger] moves@[j].move_description,
        decreases moves.len() - i,
    {
        out.push(moves[i].move_description);
        i = i + 1;
    }
    proof {
        assert forall|a: int, b: int| 0 <= a < out@.len() && 0 <= b < out@.len() && a != b implies out@[a]
            != out@[b] by {
            if a < b {
                assert(moves@[a].move_description != moves@[b].move_description);
            } else {
                assert(moves@[b].move_description != moves@[a].move_description);
            }
        }
        assert forall|m: u64| #[trigger] out@.contains(m) <==> legal_move(v, m) by {
            if out@.contains(m) {
                let j = out@.index_of(m);
                assert(moves@[j].move_description == m);
            }
            if legal_move(v, m) {
                let j = choose|j: int| 0 <= j < moves@.len() && moves@[j].move_description == m;
                assert(out@[j] == m);
            }
        }
    }
    Ok(out)
}

/// The number of legal moves of `v`.
pub open spec fn legal_count(v: GameStateView) -> nat {
    Set::new(|m: u64| legal_move(v, m)).len()
}

/// A list of the legal moves is as long as there are legal moves.
pub proof fn lemma_legal_count(v: GameStateView, moves: Seq<GeneratedMove>, annotate: bool)
    requires
        lists_legal_moves(v, moves, annotate),
    ensures
        moves.len() == legal_count(v),
{
    let ds = moves.map_values(|g: GeneratedMove| g.move_description);
    assert forall|i: int, j: int| 0 <= i < ds.len() && 0 <= j < ds.len() && i != j implies ds[i] != ds[j] by {
        if i < j {
            assert(moves[i].move_description != moves[j].move_description);
        } else {
            assert(moves[j].move_description != moves[i].move_description);
        }
    }
    ds.unique_seq_to_set();
    assert forall|m: u64| #[trigger] ds.to_set().contains(m) <==> legal_move(v, m) by {
        if ds.contains(m) {
            let i = ds.index_of(m);
            assert(moves[i].move_description == m);
        }
        if legal_move(v, m) {
            let i = choose|i: int| 0 <= i < moves.len() && moves[i].move_description == m;
            assert(ds[i] == m);
        }
    }
    assert(ds.to_set() =~= Set::new(|m: u64| legal_move(v, m)));
}

} // verus!
