//! The incremental Zobrist keys stay equal to the keys recomputed from
//! scratch when a move is made.

use vstd::prelude::*;
use crate::chess_types::{Color, PieceKind};
use crate::game_state::GameStateView;
use crate::legal_move_apply::{made, make_pieces, make_captured, make_lifted, reversible, moved_of, captured_of, placed_kind, castles, rook_from, rook_to, ep_capture_square, undo_for, lemma_occupant_unique, rights_after, ep_after};
use crate::move_descriptions::{mv_from, mv_to, has_flag, FLAG_CAPTURE, FLAG_EN_PASSANT};
use crate::zobrist::{ck, epk, stmk, zobrist_of, pawn_zobrist_of, pieces_key, keys_track, lemma_removed_keys, lemma_added_keys, lemma_xor_facts};

verus! {

/// The en-passant part of the key.
pub open spec fn ep_term(ep: Option<u8>) -> u64 {
    match ep {
        Some(e) => epk(e % 8),
        None => 0,
    }
}

/// The side-to-move part of the key.
pub open spec fn side_term(c: Color) -> u64 {
    if c == Color::Dark {
        stmk()
    } else {
        0
    }
}

/// The part of a position's key that does not depend on its pieces.
pub open spec fn state_key(w: GameStateView) -> u64 {
    (ck(w.castling_rights) ^ ep_term(w.en_passant_square)) ^ side_term(w.side_to_move)
}

/// A position's key is its pieces' key XOR its state key.
proof fn lemma_zobrist_split(w: GameStateView)
    ensures
        zobrist_of(w) == pieces_key(w.pieces, false) ^ state_key(w),
{
    let p = pieces_key(w.pieces, false);
    let c = ck(w.castling_rights);
    let e = ep_term(w.en_passant_square);
    let s = side_term(w.side_to_move);
    lemma_xor_facts(c, 0, 0);
    lemma_xor_facts(p ^ c, 0, 0);
    lemma_xor_facts(p, c, e);
    lemma_xor_facts(p, c ^ e, s);
    lemma_xor_facts(p ^ c, e, s);
    lemma_xor_facts(p ^ c ^ e, 0, 0);
    lemma_xor_facts(c ^ e, 0, 0);
}

/// The state-key bookkeeping of `made`: toggling the old and new castling,
/// en-passant and side keys.
proof fn lemma_state_key_update(
    p: u64,
    c0: u64,
    c1: u64,
    e0: u64,
    e1: u64,
    s: u64,
    same_rights: bool,
    has0: bool,
    has1: bool,
    dark: bool,
)
    by (bit_vector)
    requires
        same_rights ==> c0 == c1,
    ensures
        ({
            let rest0 = (c0 ^ (if has0 { e0 } else { 0 })) ^ (if dark { s } else { 0 });
            let z = p ^ rest0;
            let z1 = if !same_rights { z ^ c0 ^ c1 } else { z };
            let z2 = if has0 { z1 ^ e0 } else { z1 };
            let z3 = if has1 { z2 ^ e1 } else { z2 };
            z3 ^ s == p ^ ((c1 ^ (if has1 { e1 } else { 0 })) ^ (if !dark { s } else { 0 }))
        }),
{
}

/// Making a reversible move in a well-formed position whose incremental
/// keys equal the keys recomputed from scratch leaves both keys equal to
/// the keys recomputed from the new position.
pub proof fn lemma_make_keeps_keys(v: GameStateView, m: u64)
    requires
        v.wf(),
        reversible(v, m),
        v.zobrist_key == zobrist_of(v),
        v.pawn_zobrist_key == pawn_zobrist_of(v),
    ensures
        made(v, m).zobrist_key == zobrist_of(made(v, m)),
        made(v, m).pawn_zobrist_key == pawn_zobrist_of(made(v, m)),
{
    reveal(made);
    reveal(make_pieces);
    reveal(make_captured);
    reveal(make_lifted);
    crate::move_descriptions::lemma_field_bounds(m);
    let mover = v.side_to_move;
    let enemy = mover.other();
    let from = mv_from(m);
    let to = mv_to(m);
    let moved = moved_of(v, m);
    let placed = placed_kind(m, moved);
    let rest = state_key(v);
    lemma_zobrist_split(v);
    let u = undo_for(v, m, moved, captured_of(v, m));
    let pushed = GameStateView { undo_stack: v.undo_stack.push(u), ..v };
    assert(keys_track(pushed, rest));
    assert(pushed.has(mover, moved, from));
    lemma_removed_keys(pushed, mover, moved, from, rest);
    let a = make_lifted(v, m);
    crate::game_state::lemma_removed_bits(pushed, mover, moved, from);
    assert(keys_track(a, rest));
    let b = make_captured(v, m);
    if has_flag(m, FLAG_EN_PASSANT) {
        let cs = ep_capture_square(mover, to).unwrap();
        assert(a.has(enemy, PieceKind::Pawn, cs));
        lemma_removed_keys(a, enemy, PieceKind::Pawn, cs, rest);
        crate::game_state::lemma_removed_bits(a, enemy, PieceKind::Pawn, cs);
    } else if has_flag(m, FLAG_CAPTURE) && captured_of(v, m) is Some {
        let kc = captured_of(v, m).unwrap();
        assert(v.occupant(to) == Some((enemy, kc)));
        assert(v.has(enemy, kc, to));
        assert(a.has(enemy, kc, to));
        lemma_removed_keys(a, enemy, kc, to, rest);
        crate::game_state::lemma_removed_bits(a, enemy, kc, to);
    }
    assert(keys_track(b, rest));
    lemma_occupant_unique(v, to);
    assert(!v.has(mover, placed, to));
    assert(!b.has(mover, placed, to));
    lemma_added_keys(b, mover, placed, to, rest);
    let c0 = b.added(mover, placed, to);
    crate::game_state::lemma_added_bits(b, mover, placed, to);
    if castles(v, m) {
        let rf = rook_from(v, m);
        let rt = rook_to(v, m);
        assert(c0.has(mover, PieceKind::Rook, rf));
        lemma_removed_keys(c0, mover, PieceKind::Rook, rf, rest);
        let c1 = c0.removed(mover, PieceKind::Rook, rf);
        crate::game_state::lemma_removed_bits(c0, mover, PieceKind::Rook, rf);
        lemma_occupant_unique(v, rt);
        assert(!v.has(mover, PieceKind::Rook, rt));
        assert(!c1.has(mover, PieceKind::Rook, rt));
        lemma_added_keys(c1, mover, PieceKind::Rook, rt, rest);
    }
    let base = make_pieces(v, m);
    assert(keys_track(base, rest));
    let w = made(v, m);
    let rights = rights_after(v.castling_rights, mover, from, to, moved);
    lemma_state_key_update(
        pieces_key(base.pieces, false),
        ck(v.castling_rights),
        ck(rights),
        ep_term(v.en_passant_square),
        ep_term(ep_after(m)),
        stmk(),
        v.castling_rights == rights,
        v.en_passant_square is Some,
        ep_after(m) is Some,
        mover == Color::Dark,
    );
    lemma_zobrist_split(w);
}

} // verus!
