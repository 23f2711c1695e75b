//! Pseudo-legal pawn moves: pushes, double pushes, captures, promotions and
//! en-passant captures.

use vstd::prelude::*;
use crate::bits::{bit, lemma_clear_lowest_smaller, lemma_lowest_bit};
use crate::chess_types::{Color, PieceKind, Square};
use crate::game_state::{GameState, GameStateView};
use crate::legal_move_apply::build_move;
use crate::legal_move_shared::enemy_piece_on;
use crate::move_descriptions::{code_of, lemma_pack_unpack, mv_from, packed, FLAG_CAPTURE, FLAG_DOUBLE_PAWN_PUSH, FLAG_EN_PASSANT};
use crate::piece_moves::{extends_with, lemma_extends_concat, lemma_extends_empty, lemma_extends_equiv, lemma_extends_seq, own_board};

verus! {

/// Square step of a pawn's advance for side `c`.
pub open spec fn forward(c: Color) -> int {
    match c {
        Color::Light => 8,
        Color::Dark => -8,
    }
}

/// The rank on which a pawn of side `c` promotes.
pub open spec fn promotion_rank(c: Color) -> int {
    match c {
        Color::Light => 7,
        Color::Dark => 0,
    }
}

/// The rank from which a pawn of side `c` may advance two squares.
pub open spec fn start_rank(c: Color) -> int {
    match c {
        Color::Light => 1,
        Color::Dark => 6,
    }
}

/// The four promotion choices (knight, bishop, rook, queen) of a pawn move.
pub open spec fn promotions(from: u64, to: u64, captured: u64, flags: u64) -> Seq<u64> {
    seq![
        packed(from, to, 0, captured, 1, flags),
        packed(from, to, 0, captured, 2, flags),
        packed(from, to, 0, captured, 3, flags),
        packed(from, to, 0, captured, 4, flags),
    ]
}

/// The advances of the mover's pawn on `from`: one square onto an empty
/// square (the four promotions on the last rank), and from the start rank
/// also two squares when both are empty.
pub open spec fn pawn_pushes(v: GameStateView, from: u64) -> Seq<u64> {
    let c = v.side_to_move;
    let to = from + forward(c);
    let to2 = from + 2 * forward(c);
    if 0 <= to < 64 && !bit(v.occupancy_all, to as u64) {
        if to / 8 == promotion_rank(c) {
            promotions(from, to as u64, 7, 0)
        } else if from / 8 == start_rank(c) && !bit(v.occupancy_all, to2 as u64) {
            seq![packed(from, to as u64, 0, 7, 7, 0), packed(from, to2 as u64, 0, 7, 7, FLAG_DOUBLE_PAWN_PUSH)]
        } else {
            seq![packed(from, to as u64, 0, 7, 7, 0)]
        }
    } else {
        Seq::empty()
    }
}

/// The diagonal capture of the mover's pawn on `from` towards file offset
/// `fd`: onto an enemy-occupied square (the four promotions on the last
/// rank), or onto the en-passant square.
pub open spec fn pawn_capture(v: GameStateView, from: u64, fd: int) -> Seq<u64> {
    let c = v.side_to_move;
    let e = c.other();
    let to = from + forward(c) + fd;
    if 0 <= (from % 8) + fd < 8 && 0 <= to < 64 {
        let t = to as u64;
        if bit(v.occupancy_by_color[e.idx() as int], t) {
            let cap = code_of(v.kind_at(e, t));
            if to / 8 == promotion_rank(c) {
                promotions(from, t, cap, FLAG_CAPTURE)
            } else {
                seq![packed(from, t, 0, cap, 7, FLAG_CAPTURE)]
            }
        } else if v.en_passant_square == Some(t as u8) {
            seq![packed(from, t, 0, 0, 7, FLAG_CAPTURE | FLAG_EN_PASSANT)]
        } else {
            Seq::empty()
        }
    } else {
        Seq::empty()
    }
}

/// The moves of the mover's pawn on `from`, in generation order.
pub open spec fn pawn_moves_from(v: GameStateView, from: u64) -> Seq<u64> {
    pawn_pushes(v, from) + pawn_capture(v, from, -1) + pawn_capture(v, from, 1)
}

/// `m` is a pseudo-legal move of one of the mover's pawns.
pub open spec fn is_pawn_move(v: GameStateView, m: u64) -> bool {
    exists|from: u64|
        #![trigger pawn_moves_from(v, from)]
        from < 64 && bit(own_board(v, PieceKind::Pawn), from) && pawn_moves_from(v, from).contains(m)
}

/// Light, to move, has no pawn on its last rank (where an advance would
/// leave the board).
pub open spec fn pawns_on_board(v: GameStateView) -> bool {
    v.side_to_move == Color::Light ==> forall|sq: u64|
        56 <= sq < 64 ==> !#[trigger] v.has(Color::Light, PieceKind::Pawn, sq)
}

/// The fields of the packed pawn moves.
proof fn lemma_pawn_fields(from: u64, to: u64, captured: u64, promo: u64, flags: u64)
    requires
        from < 64,
        to < 64,
        captured < 8,
        promo < 8,
        flags == 0 || flags == FLAG_CAPTURE || flags == FLAG_DOUBLE_PAWN_PUSH || flags == FLAG_CAPTURE
            | FLAG_EN_PASSANT,
    ensures
        packed(from, to, 0, captured, promo, flags) & 63 == from,
        (packed(from, to, 0, captured, promo, flags) >> 6) & 63 == to,
        (packed(from, to, 0, captured, promo, flags) >> 12) & 7 == 0,
        (packed(from, to, 0, captured, promo, flags) >> 18) & 7 == promo,
        (packed(from, to, 0, captured, promo, flags) & FLAG_EN_PASSANT != 0) <==> flags == FLAG_CAPTURE
            | FLAG_EN_PASSANT,
        packed(from, to, 0, captured, promo, flags) & crate::move_descriptions::FLAG_CASTLING == 0,
{
    assert(0u64 & 0x1f_ffffu64 == 0) by (bit_vector);
    assert(0x20_0000u64 & 0x1f_ffffu64 == 0) by (bit_vector);
    assert(0x40_0000u64 & 0x1f_ffffu64 == 0) by (bit_vector);
    assert((0x20_0000u64 | 0x80_0000u64) & 0x1f_ffffu64 == 0) by (bit_vector);
    assert(0u64 & 0x80_0000u64 == 0) by (bit_vector);
    assert(0x20_0000u64 & 0x80_0000u64 == 0) by (bit_vector);
    assert(0x40_0000u64 & 0x80_0000u64 == 0) by (bit_vector);
    assert((0x20_0000u64 | 0x80_0000u64) & 0x80_0000u64 != 0) by (bit_vector);
    assert(0u64 & 0x100_0000u64 == 0) by (bit_vector);
    assert(0x20_0000u64 & 0x100_0000u64 == 0) by (bit_vector);
    assert(0x40_0000u64 & 0x100_0000u64 == 0) by (bit_vector);
    assert((0x20_0000u64 | 0x80_0000u64) & 0x100_0000u64 == 0) by (bit_vector);
    lemma_pack_unpack(from, to, 0, captured, promo, flags);
}

/// The promotion choices of one move are distinct and read back their squares.
proof fn lemma_promotions(from: u64, to: u64, captured: u64, flags: u64)
    requires
        from < 64,
        to < 64,
        captured < 8,
        flags == 0 || flags == FLAG_CAPTURE,
    ensures
        promotions(from, to, captured, flags).no_duplicates(),
        forall|i: int|
            0 <= i < 4 ==> mv_from(#[trigger] promotions(from, to, captured, flags)[i]) == from && (
            promotions(from, to, captured, flags)[i] >> 6) & 63 == to && (promotions(from, to, captured, flags)[i] >> 12) & 7 == 0
                && promotions(from, to, captured, flags)[i] & FLAG_EN_PASSANT == 0
                && promotions(from, to, captured, flags)[i] & crate::move_descriptions::FLAG_CASTLING == 0,
{
    assert(0x20_0000u64 | 0x80_0000u64 == 0xa0_0000u64) by (bit_vector);
    lemma_pawn_fields(from, to, captured, 1, flags);
    lemma_pawn_fields(from, to, captured, 2, flags);
    lemma_pawn_fields(from, to, captured, 3, flags);
    lemma_pawn_fields(from, to, captured, 4, flags);
    let s = promotions(from, to, captured, flags);
    assert forall|i: int, j: int| 0 <= i < 4 && 0 <= j < 4 && i != j implies s[i] != s[j] by {
        assert((s[i] >> 18) & 7 == i + 1);
        assert((s[j] >> 18) & 7 == j + 1);
    }
}

/// The moves of one pawn are distinct and all start on its square.
pub proof fn lemma_pawn_moves_distinct(v: GameStateView, from: u64)
    requires
        from < 64,
    ensures
        pawn_moves_from(v, from).no_duplicates(),
        forall|i: int|
            0 <= i < pawn_moves_from(v, from).len() ==> mv_from(#[trigger] pawn_moves_from(v, from)[i])
                == from && crate::move_descriptions::mv_moved(pawn_moves_from(v, from)[i]) == 0
                && pawn_moves_from(v, from)[i] & crate::move_descriptions::FLAG_CASTLING == 0
                && (pawn_moves_from(v, from)[i] & FLAG_EN_PASSANT != 0 ==> crate::move_descriptions::mv_to(
                pawn_moves_from(v, from)[i]) == from + forward(v.side_to_move) - 1 || crate::move_descriptions::mv_to(
                pawn_moves_from(v, from)[i]) == from + forward(v.side_to_move) + 1)
                && (pawn_moves_from(v, from)[i] & FLAG_EN_PASSANT != 0 && v.side_to_move == Color::Dark
                ==> crate::move_descriptions::mv_to(pawn_moves_from(v, from)[i]) < 56),
{
    let c = v.side_to_move;
    let e = c.other();
    let f = forward(c);
    let p = pawn_pushes(v, from);
    let l = pawn_capture(v, from, -1);
    let r = pawn_capture(v, from, 1);
    let s = pawn_moves_from(v, from);
    assert(0x20_0000u64 | 0x80_0000u64 == 0xa0_0000u64) by (bit_vector);
    // Destination of every element of each part.
    let to1 = from + f;
    let to2 = from + 2 * f;
    let tl = from + f - 1;
    let tr = from + f + 1;
    if 0 <= to1 < 64 {
        lemma_pawn_fields(from, to1 as u64, 7, 7, 0);
        lemma_promotions(from, to1 as u64, 7, 0);
        if 0 <= to2 < 64 {
            lemma_pawn_fields(from, to2 as u64, 7, 7, FLAG_DOUBLE_PAWN_PUSH);
        }
    }
    if 0 <= tl < 64 {
        let cap = code_of(v.kind_at(e, tl as u64));
        lemma_pawn_fields(from, tl as u64, cap, 7, FLAG_CAPTURE);
        lemma_pawn_fields(from, tl as u64, 0, 7, FLAG_CAPTURE | FLAG_EN_PASSANT);
        lemma_promotions(from, tl as u64, cap, FLAG_CAPTURE);
    }
    if 0 <= tr < 64 {
        let cap = code_of(v.kind_at(e, tr as u64));
        lemma_pawn_fields(from, tr as u64, cap, 7, FLAG_CAPTURE);
        lemma_pawn_fields(from, tr as u64, 0, 7, FLAG_CAPTURE | FLAG_EN_PASSANT);
        lemma_promotions(from, tr as u64, cap, FLAG_CAPTURE);
    }
    assert(p.no_duplicates()) by {
        if p.len() == 2 {
            assert((p[0] >> 6) & 63 == to1);
            assert((p[1] >> 6) & 63 == to2);
        }
    }
    assert forall|i: int| 0 <= i < p.len() implies mv_from(#[trigger] p[i]) == from && ((p[i] >> 6) & 63
        == to1 || (p[i] >> 6) & 63 == to2) by {
    }
    assert forall|i: int| 0 <= i < l.len() implies mv_from(#[trigger] l[i]) == from && (l[i] >> 6) & 63
        == tl by {
    }
    assert forall|i: int| 0 <= i < r.len() implies mv_from(#[trigger] r[i]) == from && (r[i] >> 6) & 63
        == tr by {
    }
    assert(l.no_duplicates());
    assert(r.no_duplicates());
    assert forall|i: int| 0 <= i < s.len() implies mv_from(#[trigger] s[i]) == from
        && crate::move_descriptions::mv_moved(s[i]) == 0
        && s[i] & crate::move_descriptions::FLAG_CASTLING == 0
        && (s[i] & FLAG_EN_PASSANT != 0 ==> crate::move_descriptions::mv_to(s[i]) == from + forward(c) - 1
            || crate::move_descriptions::mv_to(s[i]) == from + forward(c) + 1)
        && (s[i] & FLAG_EN_PASSANT != 0 && c == Color::Dark ==> crate::move_descriptions::mv_to(s[i]) < 56) by {
        if i < p.len() {
            assert(s[i] == p[i]);
        } else if i < p.len() + l.len() {
            assert(s[i] == l[i - p.len()]);
        } else {
            assert(s[i] == r[i - p.len() - l.len()]);
        }
    }
    assert forall|i: int, j: int| 0 <= i < s.len() && 0 <= j < s.len() && i != j implies s[i] != s[j] by {
        let a = p.len() as int;
        let b = a + l.len();
        if i < a && j < a {
            assert(s[i] == p[i] && s[j] == p[j]);
        } else if a <= i < b && a <= j < b {
            assert(s[i] == l[i - a] && s[j] == l[j - a]);
        } else if b <= i && b <= j {
            assert(s[i] == r[i - b] && s[j] == r[j - b]);
        } else {
            let ti = if i < a {
                p[i]
            } else if i < b {
                l[i - a]
            } else {
                r[i - b]
            };
            let tj = if j < a {
                p[j]
            } else if j < b {
                l[j - a]
            } else {
                r[j - b]
            };
            assert(s[i] == ti);
            assert(s[j] == tj);
            assert((ti >> 6) & 63 != (tj >> 6) & 63);
        }
    }
}

/// Whether `to` is empty given the inverted occupancy, and whether it is
/// held given an occupancy.
proof fn lemma_to_mask(occ: u64, to: u64)
    by (bit_vector)
    requires
        to < 64,
    ensures
        ((1u64 << to) & !occ != 0) <==> !bit(occ, to),
        ((1u64 << to) & occ != 0) <==> bit(occ, to),
{
}

/// Append the four promotion choices of a pawn move.
fn push_promotions(out: &mut Vec<u64>, from: Square, to: Square, captured: Option<PieceKind>, flags: u64)
    requires
        from < 64,
        to < 64,
    ensures
        final(out)@ == old(out)@ + promotions(from as u64, to as u64, code_of(captured), flags),
{
    out.push(build_move(from, to, PieceKind::Pawn, captured, Some(PieceKind::Knight), flags));
    out.push(build_move(from, to, PieceKind::Pawn, captured, Some(PieceKind::Bishop), flags));
    out.push(build_move(from, to, PieceKind::Pawn, captured, Some(PieceKind::Rook), flags));
    out.push(build_move(from, to, PieceKind::Pawn, captured, Some(PieceKind::Queen), flags));
    proof {
        assert(final(out)@ =~= old(out)@ + promotions(from as u64, to as u64, code_of(captured), flags));
    }
}

/// Append the capture of the mover's pawn on `from` towards file offset `fd`.
fn push_pawn_capture(game_state: &GameState, out: &mut Vec<u64>, from: Square, fd: i8)
    requires
        from < 64,
        fd == -1 || fd == 1,
        game_state.side_to_move == Color::Light ==> from < 56,
    ensures
        final(out)@ == old(out)@ + pawn_capture(game_state@, from as u64, fd as int),
{
    let side = game_state.side_to_move;
    let enemy_occ = game_state.occupancy_by_color[side.opposite().index()];
    let new_file = (from % 8) as i8 + fd;
    if !(0 <= new_file && new_file <= 7) {
        return;
    }
    let to_opt = match side {
        Color::Light => from.checked_add((8 + fd) as u8),
        Color::Dark => from.checked_sub((8 - fd) as u8),
    };
    let to = match to_opt {
        Some(t) => t,
        None => {
            return;
        },
    };
    proof {
        lemma_to_mask(enemy_occ, to as u64);
    }
    let to_mask = 1u64 << to;
    let promotion_rank: u8 = match side {
        Color::Light => 7,
        Color::Dark => 0,
    };
    if (to_mask & enemy_occ) != 0 {
        let captured_piece = enemy_piece_on(game_state, to);
        if to / 8 == promotion_rank {
            push_promotions(out, from, to, captured_piece, FLAG_CAPTURE);
        } else {
            out.push(build_move(from, to, PieceKind::Pawn, captured_piece, None, FLAG_CAPTURE));
            proof {
                assert(final(out)@ =~= old(out)@ + pawn_capture(game_state@, from as u64, fd as int));
            }
        }
    } else {
        let ep_here = match game_state.en_passant_square {
            Some(ep) => ep == to,
            None => false,
        };
        if ep_here {
            out.push(
                build_move(
                    from,
                    to,
                    PieceKind::Pawn,
                    Some(PieceKind::Pawn),
                    None,
                    FLAG_CAPTURE | FLAG_EN_PASSANT,
                ),
            );
            proof {
                assert(final(out)@ =~= old(out)@ + pawn_capture(game_state@, from as u64, fd as int));
            }
        } else {
            proof {
                assert(final(out)@ =~= old(out)@ + pawn_capture(game_state@, from as u64, fd as int));
            }
        }
    }
}

/// Append the moves of the mover's pawn on `from`, in generation order.
fn push_pawn_moves_from(game_state: &GameState, out: &mut Vec<u64>, from: Square)
    requires
        from < 64,
        game_state.side_to_move == Color::Light ==> from < 56,
    ensures
        final(out)@ == old(out)@ + pawn_moves_from(game_state@, from as u64),
{
    let ghost start = out@;
    let side = game_state.side_to_move;
    let empty = !game_state.occupancy_all;
    let rank = from / 8;
    let one_step = match side {
        Color::Light => from.checked_add(8),
        Color::Dark => from.checked_sub(8),
    };
    if let Some(to) = one_step {
        proof {
            lemma_to_mask(game_state.occupancy_all, to as u64);
        }
        let to_mask = 1u64 << to;
        if (to_mask & empty) != 0 {
            let promotion_rank: u8 = match side {
                Color::Light => 7,
                Color::Dark => 0,
            };
            if to / 8 == promotion_rank {
                push_promotions(out, from, to, None, 0);
            } else {
                out.push(build_move(from, to, PieceKind::Pawn, None, None, 0));
                let start_rank: u8 = match side {
                    Color::Light => 1,
                    Color::Dark => 6,
                };
                if rank == start_rank {
                    let two_step = match side {
                        Color::Light => from + 16,
                        Color::Dark => from - 16,
                    };
                    proof {
                        lemma_to_mask(game_state.occupancy_all, two_step as u64);
                    }
                    let two_mask = 1u64 << two_step;
                    if (two_mask & empty) != 0 {
                        out.push(
                            build_move(from, two_step, PieceKind::Pawn, None, None, FLAG_DOUBLE_PAWN_PUSH),
                        );
                    }
                }
            }
        }
    }
    proof {
        assert(out@ =~= start + pawn_pushes(game_state@, from as u64));
    }
    let ghost mid = out@;
    push_pawn_capture(game_state, out, from, -1);
    push_pawn_capture(game_state, out, from, 1);
    proof {
        assert(out@ =~= start + pawn_moves_from(game_state@, from as u64));
    }
}

/// The moves of the pawns on board `b`, lowest square first, each pawn's
/// in generation order.
pub open spec fn pawn_moves_of_board(v: GameStateView, b: u64) -> Seq<u64>
    decreases b,
{
    if b == 0 {
        Seq::empty()
    } else {
        proof {
            lemma_clear_lowest_smaller(b);
        }
        pawn_moves_from(v, b.trailing_zeros() as u64) + pawn_moves_of_board(v, b & ((b - 1) as u64))
    }
}

/// Append to `out` every pseudo-legal pawn move of the side to move, each
/// once: for each pawn (lowest square first) its advances, then its capture
/// towards the lower file, then towards the higher file; a move onto the
/// last rank comes as its four promotions.
pub fn generate_pawn_moves(game_state: &GameState, out: &mut Vec<u64>)
    requires
        pawns_on_board(game_state@),
    ensures
        extends_with(old(out)@, final(out)@, |m: u64| is_pawn_move(game_state@, m)),
        final(out)@ == old(out)@ + pawn_moves_of_board(game_state@, own_board(game_state@, PieceKind::Pawn)),
{
    let ghost v = game_state@;
    let ghost before = out@;
    let side = game_state.side_to_move;
    let our_pawns = game_state.pieces[side.index()][PieceKind::Pawn.index()];
    let mut pawns = our_pawns;
    proof {
        lemma_extends_empty(
            before,
            |m: u64|
                exists|f: u64|
                    #![trigger pawn_moves_from(v, f)]
                    f < 64 && bit(our_pawns, f) && !bit(pawns, f) && pawn_moves_from(v, f).contains(m),
        );
    }
    while pawns != 0
        invariant
            v == game_state@,
            pawns_on_board(v),
            side == v.side_to_move,
            our_pawns == own_board(v, PieceKind::Pawn),
            forall|j: u64| j < 64 && bit(pawns, j) ==> bit(our_pawns, j),
            out@ + pawn_moves_of_board(v, pawns) == before + pawn_moves_of_board(v, our_pawns),
            extends_with(
                before,
                out@,
                |m: u64|
                    exists|f: u64|
                        #![trigger pawn_moves_from(v, f)]
                        f < 64 && bit(our_pawns, f) && !bit(pawns, f) && pawn_moves_from(v, f).contains(m),
            ),
        decreases pawns,
    {
        proof {
            lemma_lowest_bit(pawns);
            lemma_clear_lowest_smaller(pawns);
        }
        let from = pawns.trailing_zeros() as Square;
        proof {
            if side == Color::Light && from >= 56 {
                assert(v.has(Color::Light, PieceKind::Pawn, from as u64));
            }
        }
        let ghost b = out@;
        let ghost old_pawns = pawns;
        push_pawn_moves_from(game_state, out, from);
        pawns = pawns & (pawns - 1);
        proof {
            assert(pawn_moves_of_board(v, old_pawns) == pawn_moves_from(v, from as u64) + pawn_moves_of_board(v, pawns));
            assert(out@ + pawn_moves_of_board(v, pawns) =~= b + pawn_moves_of_board(v, old_pawns));
        }
        proof {
            let s = pawn_moves_from(v, from as u64);
            lemma_pawn_moves_distinct(v, from as u64);
            lemma_extends_seq(b, s);
            let p = |m: u64|
                exists|f: u64|
                    #![trigger pawn_moves_from(v, f)]
                    f < 64 && bit(our_pawns, f) && !bit(old_pawns, f) && pawn_moves_from(v, f).contains(m);
            let q = |m: u64| s.contains(m);
            assert forall|m: u64| !(#[trigger] p(m) && q(m)) by {
                if p(m) && q(m) {
                    let f = choose|f: u64|
                        #![trigger pawn_moves_from(v, f)]
                        f < 64 && bit(our_pawns, f) && !bit(old_pawns, f) && pawn_moves_from(v, f).contains(m);
                    lemma_pawn_moves_distinct(v, f);
                    let i = pawn_moves_from(v, f).index_of(m);
                    let k = s.index_of(m);
                    assert(mv_from(pawn_moves_from(v, f)[i]) == f);
                    assert(mv_from(s[k]) == from as u64);
                }
            }
            lemma_extends_concat(before, b, out@, p, q);
            lemma_extends_equiv(
                before,
                out@,
                |m: u64| p(m) || q(m),
                |m: u64|
                    exists|f: u64|
                        #![trigger pawn_moves_from(v, f)]
                        f < 64 && bit(our_pawns, f) && !bit(pawns, f) && pawn_moves_from(v, f).contains(m),
            );
        }
    }
    proof {
        assert(out@ + pawn_moves_of_board(v, pawns) =~= out@);
        assert forall|j: u64| j < 64 implies !bit(pawns, j) by {
            crate::bits::lemma_bit_ops(pawns, pawns, j);
        }
        lemma_extends_equiv(
            before,
            out@,
            |m: u64|
                exists|f: u64|
                    #![trigger pawn_moves_from(v, f)]
                    f < 64 && bit(our_pawns, f) && !bit(pawns, f) && pawn_moves_from(v, f).contains(m),
            |m: u64| is_pawn_move(game_state@, m),
        );
    }
}


/// The target of pawn move `m` of the mover's pawn on `from`, when it is
/// no en-passant capture, is another square that holds no piece of the
/// mover.
proof fn lemma_pawn_target_free(v: GameStateView, from: u64, m: u64)
    requires
        v.wf(),
        from < 64,
        pawn_moves_from(v, from).contains(m),
        m & FLAG_EN_PASSANT == 0,
    ensures
        crate::move_descriptions::mv_to(m) < 64,
        crate::move_descriptions::mv_to(m) != from,
        !bit(v.occupancy_by_color[v.side_to_move.idx() as int], crate::move_descriptions::mv_to(m)),
{
    let c = v.side_to_move;
    let e = c.other();
    let fw = forward(c);
    let p = pawn_pushes(v, from);
    let l = pawn_capture(v, from, -1);
    let r = pawn_capture(v, from, 1);
    assert(pawn_moves_from(v, from) == p + l + r);
    let to = from + fw;
    let to2 = from + 2 * fw;
    if p.contains(m) {
        let k = p.index_of(m);
        if 0 <= to < 64 && to / 8 == promotion_rank(c) {
            lemma_pawn_fields(from, to as u64, 7, 1, 0);
            lemma_pawn_fields(from, to as u64, 7, 2, 0);
            lemma_pawn_fields(from, to as u64, 7, 3, 0);
            lemma_pawn_fields(from, to as u64, 7, 4, 0);
        } else {
            lemma_pawn_fields(from, to as u64, 7, 7, 0);
            if from / 8 == start_rank(c) {
                lemma_pawn_fields(from, to2 as u64, 7, 7, FLAG_DOUBLE_PAWN_PUSH);
            }
        }
        assert(bit(v.occupancy_all, crate::move_descriptions::mv_to(m)) <==> (bit(
            v.occupancy_by_color[0],
            crate::move_descriptions::mv_to(m),
        ) || bit(v.occupancy_by_color[1], crate::move_descriptions::mv_to(m))));
    } else {
        let fd: int = if l.contains(m) { -1 } else { 1 };
        let q = pawn_capture(v, from, fd);
        assert(q.contains(m));
        let t = from + fw + fd;
        let tu = t as u64;
        let cap = code_of(v.kind_at(e, tu));
        if !bit(v.occupancy_by_color[e.idx() as int], tu) {
            if 0 <= (from % 8) + fd < 8 && 0 <= t < 64 {
                lemma_pawn_fields(from, tu, 0, 7, FLAG_CAPTURE | FLAG_EN_PASSANT);
            }
            assert(false);
        }
        if t / 8 == promotion_rank(c) {
            lemma_pawn_fields(from, tu, cap, 1, FLAG_CAPTURE);
            lemma_pawn_fields(from, tu, cap, 2, FLAG_CAPTURE);
            lemma_pawn_fields(from, tu, cap, 3, FLAG_CAPTURE);
            lemma_pawn_fields(from, tu, cap, 4, FLAG_CAPTURE);
        } else {
            lemma_pawn_fields(from, tu, cap, 7, FLAG_CAPTURE);
        }
        assert(crate::move_descriptions::mv_to(m) == tu);
        let kk = v.kind_at(e, tu).unwrap();
        assert(v.has(e, kk, tu));
        if bit(v.occupancy_by_color[c.idx() as int], tu) {
            let k2 = v.kind_at(c, tu).unwrap();
            assert(v.has(c, k2, tu));
        }
    }
}

/// Every pawn move of the side to move in a well-formed position, other
/// than an en-passant capture, is reversible: making it and then
/// unmaking it gives back the position, flags, clocks, keys, history and
/// undo stack.
pub proof fn lemma_pawn_moves_round_trip(v: GameStateView, from: u64, m: u64)
    requires
        v.wf(),
        from < 64,
        v.has(v.side_to_move, PieceKind::Pawn, from),
        pawn_moves_from(v, from).contains(m),
        m & FLAG_EN_PASSANT == 0,
        v.repetition_history.len() <= usize::MAX,
    ensures
        crate::legal_move_apply::reversible(v, m),
        crate::legal_move_apply::unmade(crate::legal_move_apply::made(v, m)) == v,
{
    lemma_pawn_moves_distinct(v, from);
    let i = pawn_moves_from(v, from).index_of(m);
    assert(pawn_moves_from(v, from)[i] == m);
    lemma_pawn_target_free(v, from, m);
    let to = crate::move_descriptions::mv_to(m);
    crate::legal_move_apply::lemma_occupant_unique(v, from);
    crate::legal_move_apply::lemma_occupant_unique(v, to);
    let mover = v.side_to_move;
    assert(bit(v.occupancy_by_color[mover.idx() as int], to) <==> v.kind_at(mover, to) is Some);
    match v.occupant(to) {
        Some((c2, k2)) => {
            assert(v.has(c2, k2, to));
        },
        None => {},
    }
    assert(crate::legal_move_apply::reversible(v, m));
    crate::legal_move_apply::lemma_make_unmake_roundtrip(v, m);
}

} // verus!
