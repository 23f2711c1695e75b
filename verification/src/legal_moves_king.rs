//! Pseudo-legal king moves, castling included.

use vstd::prelude::*;
use crate::bits::{bit, lemma_lowest_bit, lemma_square_mask};
use crate::chess_types::{
    Color, PieceKind, Square, CASTLE_DARK_KINGSIDE, CASTLE_DARK_QUEENSIDE, CASTLE_LIGHT_KINGSIDE,
    CASTLE_LIGHT_QUEENSIDE,
};
use crate::game_state::{GameState, GameStateView};
use crate::legal_move_apply::build_move;
use crate::legal_move_checks::{is_square_attacked, king_sq, square_attacked};
use crate::move_descriptions::{lemma_pack_unpack, packed, FLAG_CAPTURE, FLAG_CASTLING};
use crate::piece_moves::{
    extends_with, is_step_move, lemma_extends_concat, lemma_extends_empty, lemma_extends_equiv,
    lemma_extends_seq, push_step_moves, step_move, step_target,
};

verus! {

/// The packed castling move of a king from `from` to `to`.
pub open spec fn castle_code(from: u64, to: u64) -> u64 {
    packed(from, to, 5, 7, 7, FLAG_CASTLING)
}

/// `m` is a castling move of the side to move's king on `from`: the king is
/// not in check, stands on its home square, the right is held, the squares
/// between king and rook are empty, and the two squares the king crosses
/// are not attacked.
pub open spec fn castle_move(v: GameStateView, from: u64, m: u64) -> bool {
    let e = v.side_to_move.other();
    let occ = v.occupancy_all;
    let r = v.castling_rights;
    &&& !square_attacked(v, from, e)
    &&& match v.side_to_move {
        Color::Light => from == 4 && ((r & CASTLE_LIGHT_KINGSIDE != 0 && !bit(occ, 5) && !bit(occ, 6)
            && !square_attacked(v, 5, e) && !square_attacked(v, 6, e) && m == castle_code(4, 6)) || (r
            & CASTLE_LIGHT_QUEENSIDE != 0 && !bit(occ, 1) && !bit(occ, 2) && !bit(occ, 3)
            && !square_attacked(v, 3, e) && !square_attacked(v, 2, e) && m == castle_code(4, 2))),
        Color::Dark => from == 60 && ((r & CASTLE_DARK_KINGSIDE != 0 && !bit(occ, 61) && !bit(occ, 62)
            && !square_attacked(v, 61, e) && !square_attacked(v, 62, e) && m == castle_code(60, 62))
            || (r & CASTLE_DARK_QUEENSIDE != 0 && !bit(occ, 57) && !bit(occ, 58) && !bit(occ, 59)
            && !square_attacked(v, 59, e) && !square_attacked(v, 58, e) && m == castle_code(60, 58))),
    }
}

/// `m` is a one-square move of a king on `from`.
pub open spec fn king_step(v: GameStateView, from: u64, m: u64) -> bool {
    exists|to: u64|
        #![trigger step_move(v, PieceKind::King, from, to)]
        step_target(v, PieceKind::King, from, to) && m == step_move(v, PieceKind::King, from, to)
}

/// `m` is a pseudo-legal move of the side to move's king (the lowest one,
/// if there are several): a step or a castling move.
pub open spec fn is_king_move(v: GameStateView, m: u64) -> bool {
    match king_sq(v, v.side_to_move) {
        Some(s) => king_step(v, s, m) || castle_move(v, s, m),
        None => false,
    }
}

/// Emptiness of the squares between king and rook, read from masks.
proof fn lemma_between_masks(occ: u64)
    by (bit_vector)
    ensures
        (occ & ((1u64 << 5u64) | (1u64 << 6u64)) == 0) <==> (!bit(occ, 5) && !bit(occ, 6)),
        (occ & ((1u64 << 1u64) | (1u64 << 2u64) | (1u64 << 3u64)) == 0) <==> (!bit(occ, 1) && !bit(
            occ,
            2,
        ) && !bit(occ, 3)),
        (occ & ((1u64 << 61u64) | (1u64 << 62u64)) == 0) <==> (!bit(occ, 61) && !bit(occ, 62)),
        (occ & ((1u64 << 57u64) | (1u64 << 58u64) | (1u64 << 59u64)) == 0) <==> (!bit(occ, 57)
            && !bit(occ, 58) && !bit(occ, 59)),
{
}

/// Castling moves carry the castling flag and their destination.
pub proof fn lemma_castle_code(from: u64, to: u64)
    requires
        from < 64,
        to < 64,
    ensures
        (castle_code(from, to) >> 6) & 63 == to,
        (castle_code(from, to) >> 12) & 7 == 5,
        castle_code(from, to) & FLAG_CASTLING != 0,
        castle_code(from, to) & crate::move_descriptions::FLAG_EN_PASSANT == 0,
{
    assert(0x100_0000u64 & 0x1f_ffffu64 == 0) by (bit_vector);
    assert(0x100_0000u64 & 0x80_0000u64 == 0) by (bit_vector);
    assert(0x100_0000u64 & 0x100_0000u64 != 0) by (bit_vector);
    lemma_pack_unpack(from, to, 5, 7, 7, FLAG_CASTLING);
}

/// Step moves carry no castling flag.
proof fn lemma_step_not_castle(v: GameStateView, from: u64, to: u64)
    requires
        from < 64,
        to < 64,
    ensures
        step_move(v, PieceKind::King, from, to) & FLAG_CASTLING == 0,
{
    let e = v.side_to_move.other();
    let cap = bit(v.occupancy_by_color[e.idx() as int], to);
    let c = crate::move_descriptions::code_of(if cap { v.kind_at(e, to) } else { None });
    let f: u64 = if cap { FLAG_CAPTURE } else { 0 };
    assert(0x20_0000u64 & 0x1f_ffffu64 == 0) by (bit_vector);
    assert(0u64 & 0x1f_ffffu64 == 0) by (bit_vector);
    assert(0x20_0000u64 & 0x100_0000u64 == 0) by (bit_vector);
    assert(0u64 & 0x100_0000u64 == 0) by (bit_vector);
    lemma_pack_unpack(from, to, 5, c, 7, f);
}

/// Append every pseudo-legal king move of the side to move, each once: the
/// steps of its (lowest) king to squares it does not hold and the castling
/// moves. The order of the appended moves is not part of this contract.
pub fn generate_king_moves(game_state: &GameState, out: &mut Vec<u64>)
    ensures
        extends_with(old(out)@, final(out)@, |m: u64| is_king_move(game_state@, m)),
{
    let ghost v = game_state@;
    let side = game_state.side_to_move;
    let king_bb = game_state.pieces[side.index()][PieceKind::King.index()];
    if king_bb == 0 {
        proof {
            lemma_extends_empty(out@, |m: u64| is_king_move(game_state@, m));
        }
        return;
    }
    proof {
        lemma_lowest_bit(king_bb);
    }
    let from = king_bb.trailing_zeros() as Square;
    let froms = 1u64 << from;
    let ghost a = out@;
    push_step_moves(game_state, out, PieceKind::King, froms);
    let ghost b = out@;
    generate_castling_moves(game_state, out, from);
    proof {
        let p = |m: u64| is_step_move(v, PieceKind::King, froms, m);
        let q = |m: u64| castle_move(v, from as u64, m);
        assert forall|m: u64| #[trigger] p(m) == king_step(v, from as u64, m) by {
            if p(m) {
                let (f, t) = choose|f: u64, t: u64|
                    #![trigger step_move(v, PieceKind::King, f, t)]
                    f < 64 && bit(froms, f) && step_target(v, PieceKind::King, f, t) && m == step_move(
                        v,
                        PieceKind::King,
                        f,
                        t,
                    );
                lemma_square_mask(from as u64, f);
            }
            if king_step(v, from as u64, m) {
                let t = choose|t: u64|
                    #![trigger step_move(v, PieceKind::King, from as u64, t)]
                    step_target(v, PieceKind::King, from as u64, t) && m == step_move(
                        v,
                        PieceKind::King,
                        from as u64,
                        t,
                    );
                lemma_square_mask(from as u64, from as u64);
                assert(step_move(v, PieceKind::King, from as u64, t) == m);
            }
        }
        assert forall|m: u64| !(#[trigger] p(m) && q(m)) by {
            if p(m) && q(m) {
                let t = choose|t: u64|
                    #![trigger step_move(v, PieceKind::King, from as u64, t)]
                    step_target(v, PieceKind::King, from as u64, t) && m == step_move(
                        v,
                        PieceKind::King,
                        from as u64,
                        t,
                    );
                lemma_step_not_castle(v, from as u64, t);
                lemma_castle_code(4, 6);
                lemma_castle_code(4, 2);
                lemma_castle_code(60, 62);
                lemma_castle_code(60, 58);
            }
        }
        lemma_extends_concat(a, b, out@, p, q);
        lemma_extends_equiv(
            a,
            out@,
            |m: u64| p(m) || q(m),
            |m: u64| is_king_move(game_state@, m),
        );
    }
}

/// Push the castling move `from -> to` when the right is held, the squares
/// of `between` are empty and `s1`, `s2` are not attacked by the enemy;
/// report whether it was pushed.
fn push_castle_if_open(
    game_state: &GameState,
    out: &mut Vec<u64>,
    right: u8,
    between: u64,
    s1: Square,
    s2: Square,
    from: Square,
    to: Square,
) -> (pushed: bool)
    requires
        s1 < 64,
        s2 < 64,
        from < 64,
        to < 64,
    ensures
        pushed == (game_state.castling_rights & right != 0 && game_state.occupancy_all & between == 0
            && !square_attacked(game_state@, s1 as u64, game_state.side_to_move.other())
            && !square_attacked(game_state@, s2 as u64, game_state.side_to_move.other())),
        final(out)@ == if pushed {
            old(out)@.push(castle_code(from as u64, to as u64))
        } else {
            old(out)@
        },
{
    let enemy = game_state.side_to_move.opposite();
    if (game_state.castling_rights & right) != 0 {
        if (game_state.occupancy_all & between) == 0 && !is_square_attacked(game_state, s1, enemy)
            && !is_square_attacked(game_state, s2, enemy) {
            out.push(build_move(from, to, PieceKind::King, None, None, FLAG_CASTLING));
            return true;
        }
    }
    false
}

/// Append the castling moves open to the side to move's king on `king_from`.
fn generate_castling_moves(game_state: &GameState, out: &mut Vec<u64>, king_from: Square)
    requires
        king_from < 64,
    ensures
        extends_with(old(out)@, final(out)@, |m: u64| castle_move(game_state@, king_from as u64, m)),
{
    let ghost v = game_state@;
    let ghost a = out@;
    let side = game_state.side_to_move;
    let enemy = side.opposite();
    proof {
        lemma_between_masks(game_state.occupancy_all);
        lemma_castle_code(4, 6);
        lemma_castle_code(4, 2);
        lemma_castle_code(60, 62);
        lemma_castle_code(60, 58);
    }
    if is_square_attacked(game_state, king_from, enemy) {
        proof {
            lemma_extends_empty(out@, |m: u64| castle_move(game_state@, king_from as u64, m));
        }
        return;
    }
    let mut kingside = false;
    let mut queenside = false;
    let ghost mut kc: u64 = 0;
    let ghost mut qc: u64 = 0;
    let home: Square = match side {
        Color::Light => 4,
        Color::Dark => 60,
    };
    if king_from == home {
        match side {
            Color::Light => {
                kingside = push_castle_if_open(
                    game_state,
                    out,
                    CASTLE_LIGHT_KINGSIDE,
                    (1u64 << 5u64) | (1u64 << 6u64),
                    5,
                    6,
                    4,
                    6,
                );
                queenside = push_castle_if_open(
                    game_state,
                    out,
                    CASTLE_LIGHT_QUEENSIDE,
                    (1u64 << 1u64) | (1u64 << 2u64) | (1u64 << 3u64),
                    3,
                    2,
                    4,
                    2,
                );
                proof {
                    kc = castle_code(4, 6);
                    qc = castle_code(4, 2);
                }
            },
            Color::Dark => {
                kingside = push_castle_if_open(
                    game_state,
                    out,
                    CASTLE_DARK_KINGSIDE,
                    (1u64 << 61u64) | (1u64 << 62u64),
                    61,
                    62,
                    60,
                    62,
                );
                queenside = push_castle_if_open(
                    game_state,
                    out,
                    CASTLE_DARK_QUEENSIDE,
                    (1u64 << 57u64) | (1u64 << 58u64) | (1u64 << 59u64),
                    59,
                    58,
                    60,
                    58,
                );
                proof {
                    kc = castle_code(60, 62);
                    qc = castle_code(60, 58);
                }
            },
        }
    }
    proof {
        let ks: Seq<u64> = if kingside { seq![kc] } else { Seq::empty() };
        let qs: Seq<u64> = if queenside { seq![qc] } else { Seq::empty() };
        let added = ks + qs;
        assert(out@ =~= a + added);
        assert(kingside && queenside ==> kc != qc);
        assert forall|m: u64| #[trigger] added.contains(m) == ((kingside && m == kc) || (queenside && m == qc)) by {
            if kingside && m == kc {
                assert(added[0] == m);
            }
            if queenside && m == qc {
                assert(added[added.len() - 1] == m);
            }
        }
        assert forall|m: u64| #[trigger] added.contains(m) == castle_move(v, king_from as u64, m) by {
        }
        lemma_extends_seq(a, added);
        lemma_extends_equiv(
            a,
            out@,
            |m: u64| added.contains(m),
            |m: u64| castle_move(game_state@, king_from as u64, m),
        );
    }
}

} // verus!
