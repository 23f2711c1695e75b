//! Pseudo-legal moves of the pieces that move along their attack sets
//! (knight, bishop, rook, queen, king): every attacked square not held by
//! the mover, a capture when the enemy occupancy covers it.

use vstd::prelude::*;
use crate::attacks::{
    bishop_attack, bishop_attacks, king_attack, king_attacks, knight_attack, knight_attacks,
    queen_attack, queen_attacks, rook_attack, rook_attacks,
};
use crate::bits::{bit, lemma_bit_ops, lemma_clear_lowest_smaller, lemma_lowest_bit, lemma_mask_ops};
use crate::chess_types::{PieceKind, Square};
use crate::game_state::{GameState, GameStateView};
use crate::legal_move_apply::build_move;
use crate::legal_move_shared::enemy_piece_on;
use crate::move_descriptions::{code_of, lemma_pack_unpack, mv_from, mv_to, packed, FLAG_CAPTURE};

verus! {

/// A piece of kind `k` (not a pawn) on `from` attacks `to`.
pub open spec fn piece_attack(k: PieceKind, from: int, occ: u64, to: int) -> bool {
    match k {
        PieceKind::Knight => knight_attack(from, to),
        PieceKind::Bishop => bishop_attack(from, occ, to),
        PieceKind::Rook => rook_attack(from, occ, to),
        PieceKind::Queen => queen_attack(from, occ, to),
        PieceKind::King => king_attack(from, to),
        PieceKind::Pawn => false,
    }
}

/// `to` is a destination for a `k` on `from`: attacked, and not held by the
/// side to move.
pub open spec fn step_target(v: GameStateView, k: PieceKind, from: u64, to: u64) -> bool {
    &&& to < 64
    &&& piece_attack(k, from as int, v.occupancy_all, to as int)
    &&& !bit(v.occupancy_by_color[v.side_to_move.idx() as int], to)
}

/// The packed move of a `k` from `from` to `to`: a capture (with the enemy's
/// kind on `to`) when the enemy occupancy covers `to`, a quiet move otherwise.
pub open spec fn step_move(v: GameStateView, k: PieceKind, from: u64, to: u64) -> u64 {
    let enemy = v.side_to_move.other();
    let cap = bit(v.occupancy_by_color[enemy.idx() as int], to);
    packed(
        from,
        to,
        k.idx() as u64,
        code_of(if cap { v.kind_at(enemy, to) } else { None }),
        code_of(None),
        if cap { FLAG_CAPTURE } else { 0 },
    )
}

/// `m` is a move of a `k` standing on a square of `froms`.
pub open spec fn is_step_move(v: GameStateView, k: PieceKind, froms: u64, m: u64) -> bool {
    exists|from: u64, to: u64|
        #![trigger step_move(v, k, from, to)]
        from < 64 && bit(froms, from) && step_target(v, k, from, to) && m == step_move(v, k, from, to)
}

/// The moves added at the end of a move list.
pub open spec fn appended(before: Seq<u64>, after: Seq<u64>) -> Seq<u64> {
    after.skip(before.len() as int)
}

/// `after` is `before` followed by exactly the moves satisfying `p`, each
/// once.
pub open spec fn extends_with(before: Seq<u64>, after: Seq<u64>, p: spec_fn(u64) -> bool) -> bool {
    &&& before.len() <= after.len()
    &&& after.subrange(0, before.len() as int) == before
    &&& appended(before, after).no_duplicates()
    &&& forall|m: u64| appended(before, after).contains(m) <==> #[trigger] p(m)
}

/// Squares a `k` (not a pawn) on `from` attacks.
pub(crate) fn piece_attacks(k: PieceKind, from: Square, occ: u64) -> (r: u64)
    requires
        k != PieceKind::Pawn,
        from < 64,
    ensures
        forall|t: u64| t < 64 ==> (#[trigger] bit(r, t) <==> piece_attack(k, from as int, occ, t as int)),
{
    match k {
        PieceKind::Knight => knight_attacks(from),
        PieceKind::Bishop => bishop_attacks(from, occ),
        PieceKind::Rook => rook_attacks(from, occ),
        PieceKind::Queen => queen_attacks(from, occ),
        _ => king_attacks(from),
    }
}

/// A move written by `step_move` reads back its origin, destination and
/// moving kind, and carries neither the en-passant nor the castling flag.
pub proof fn lemma_step_move_fields(v: GameStateView, k: PieceKind, from: u64, to: u64)
    requires
        from < 64,
        to < 64,
    ensures
        mv_from(step_move(v, k, from, to)) == from,
        mv_to(step_move(v, k, from, to)) == to,
        crate::move_descriptions::mv_moved(step_move(v, k, from, to)) == k.idx(),
        step_move(v, k, from, to) & crate::move_descriptions::FLAG_EN_PASSANT == 0,
        step_move(v, k, from, to) & crate::move_descriptions::FLAG_CASTLING == 0,
{
    let enemy = v.side_to_move.other();
    let cap = bit(v.occupancy_by_color[enemy.idx() as int], to);
    let c = code_of(if cap { v.kind_at(enemy, to) } else { None });
    let f: u64 = if cap { FLAG_CAPTURE } else { 0 };
    assert(0x20_0000u64 & 0x1f_ffffu64 == 0) by (bit_vector);
    assert(0u64 & 0x1f_ffffu64 == 0) by (bit_vector);
    assert(0x20_0000u64 & 0x80_0000u64 == 0) by (bit_vector);
    assert(0u64 & 0x80_0000u64 == 0) by (bit_vector);
    assert(0x20_0000u64 & 0x100_0000u64 == 0) by (bit_vector);
    assert(0u64 & 0x100_0000u64 == 0) by (bit_vector);
    lemma_pack_unpack(from, to, k.idx() as u64, c, 7, f);
}

/// Append the moves of every `k` standing on a square of `froms`.
pub(crate) fn push_step_moves(game_state: &GameState, out: &mut Vec<u64>, k: PieceKind, froms: u64)
    requires
        k != PieceKind::Pawn,
    ensures
        extends_with(old(out)@, final(out)@, |m: u64| is_step_move(game_state@, k, froms, m)),
{
    let ghost v = game_state@;
    let ghost before = old(out)@;
    let ghost n0 = old(out)@.len() as int;
    let side = game_state.side_to_move;
    let own_occ = game_state.occupancy_by_color[side.index()];
    let enemy_occ = game_state.occupancy_by_color[side.opposite().index()];
    let occ = game_state.occupancy_all;
    let mut rem = froms;
    while rem != 0
        invariant
            k != PieceKind::Pawn,
            v == game_state@,
            side == v.side_to_move,
            own_occ == v.occupancy_by_color[side.idx() as int],
            enemy_occ == v.occupancy_by_color[side.other().idx() as int],
            occ == v.occupancy_all,
            n0 == before.len(),
            n0 <= out@.len(),
            out@.subrange(0, n0) == before,
            forall|j: u64| j < 64 && bit(rem, j) ==> bit(froms, j),
            forall|i: int|
                n0 <= i < out@.len() ==> {
                    let m = #[trigger] out@[i];
                    &&& mv_from(m) < 64
                    &&& bit(froms, mv_from(m))
                    &&& !bit(rem, mv_from(m))
                    &&& step_target(v, k, mv_from(m), mv_to(m))
                    &&& m == step_move(v, k, mv_from(m), mv_to(m))
                },
            forall|from: u64, to: u64|
                #![trigger step_move(v, k, from, to)]
                from < 64 && bit(froms, from) && !bit(rem, from) && step_target(v, k, from, to)
                    ==> out@.skip(n0).contains(step_move(v, k, from, to)),
            out@.skip(n0).no_duplicates(),
        decreases rem,
    {
        proof {
            lemma_lowest_bit(rem);
            lemma_clear_lowest_smaller(rem);
        }
        let from = rem.trailing_zeros() as Square;
        let targets = piece_attacks(k, from, occ);
        let att0 = targets & !own_occ;
        proof {
            assert forall|t: u64| t < 64 implies (#[trigger] bit(att0, t) <==> step_target(v, k, from as u64, t)) by {
                lemma_bit_ops(targets, own_occ, t);
            }
        }
        let mut attacks = att0;
        while attacks != 0
            invariant
                k != PieceKind::Pawn,
                v == game_state@,
                side == v.side_to_move,
                own_occ == v.occupancy_by_color[side.idx() as int],
                enemy_occ == v.occupancy_by_color[side.other().idx() as int],
                occ == v.occupancy_all,
                n0 == before.len(),
                n0 <= out@.len(),
                out@.subrange(0, n0) == before,
                from < 64,
                bit(rem, from as u64),
                bit(froms, from as u64),
                forall|t: u64| t < 64 ==> (#[trigger] bit(att0, t) <==> step_target(v, k, from as u64, t)),
                forall|t: u64| t < 64 && bit(attacks, t) ==> bit(att0, t),
                forall|i: int|
                    n0 <= i < out@.len() ==> {
                        let m = #[trigger] out@[i];
                        &&& mv_from(m) < 64
                        &&& bit(froms, mv_from(m))
                        &&& (!bit(rem, mv_from(m)) || (mv_from(m) == from && !bit(attacks, mv_to(m))))
                        &&& step_target(v, k, mv_from(m), mv_to(m))
                        &&& m == step_move(v, k, mv_from(m), mv_to(m))
                    },
                forall|f: u64, to: u64|
                    #![trigger step_move(v, k, f, to)]
                    f < 64 && bit(froms, f) && step_target(v, k, f, to) && (!bit(rem, f) || (f == from
                        && !bit(attacks, to))) ==> out@.skip(n0).contains(step_move(v, k, f, to)),
                out@.skip(n0).no_duplicates(),
            decreases attacks,
        {
            proof {
                lemma_lowest_bit(attacks);
                lemma_clear_lowest_smaller(attacks);
            }
            let to = attacks.trailing_zeros() as Square;
            let to_mask = 1u64 << to;
            proof {
                lemma_mask_ops(enemy_occ, to as u64, 0);
                assert(to_mask & enemy_occ == enemy_occ & to_mask) by (bit_vector);
            }
            let is_capture = (to_mask & enemy_occ) != 0;
            let captured = if is_capture {
                enemy_piece_on(game_state, to)
            } else {
                None
            };
            let flags: u64 = if is_capture {
                FLAG_CAPTURE
            } else {
                0
            };
            let m = build_move(from, to, k, captured, None, flags);
            let ghost prev = out@;
            proof {
                assert(m == step_move(v, k, from as u64, to as u64));
                lemma_step_move_fields(v, k, from as u64, to as u64);
                assert forall|i: int| n0 <= i < prev.len() implies prev[i] != m by {
                    let mi = prev[i];
                    if mv_from(mi) == from as u64 && mv_to(mi) == to as u64 {
                        assert(bit(attacks, to as u64));
                    }
                }
            }
            out.push(m);
            let ghost old_attacks = attacks;
            attacks = attacks & (attacks - 1);
            proof {
                assert(out@.skip(n0) =~= prev.skip(n0).push(m));
                assert(out@.subrange(0, n0) =~= prev.subrange(0, n0));
                assert forall|i: int| n0 <= i < out@.len() implies {
                    let mm = #[trigger] out@[i];
                    &&& mv_from(mm) < 64
                    &&& bit(froms, mv_from(mm))
                    &&& (!bit(rem, mv_from(mm)) || (mv_from(mm) == from && !bit(attacks, mv_to(mm))))
                    &&& step_target(v, k, mv_from(mm), mv_to(mm))
                    &&& mm == step_move(v, k, mv_from(mm), mv_to(mm))
                } by {
                    if i < prev.len() {
                        assert(out@[i] == prev[i]);
                        let mm = prev[i];
                        if bit(rem, mv_from(mm)) {
                            lemma_field_lt(mm);
                            assert(!bit(old_attacks, mv_to(mm)));
                        }
                    }
                }
                assert forall|f: u64, t: u64|
                    #![trigger step_move(v, k, f, t)]
                    f < 64 && bit(froms, f) && step_target(v, k, f, t) && (!bit(rem, f) || (f == from
                        && !bit(attacks, t))) implies out@.skip(n0).contains(step_move(v, k, f, t)) by {
                    if !bit(rem, f) || !bit(old_attacks, t) {
                        let w = prev.skip(n0).index_of(step_move(v, k, f, t));
                        assert(out@.skip(n0)[w] == step_move(v, k, f, t));
                    } else {
                        assert(t == to as u64);
                        assert(out@.skip(n0)[prev.skip(n0).len() as int] == m);
                    }
                }
                assert forall|a: int, b: int|
                    0 <= a < out@.skip(n0).len() && 0 <= b < out@.skip(n0).len() && a != b implies out@.skip(
                    n0,
                )[a] != out@.skip(n0)[b] by {
                    let s = out@.skip(n0);
                    let last = prev.skip(n0).len() as int;
                    if a == last {
                        assert(s[b] == prev[b + n0]);
                    } else if b == last {
                        assert(s[a] == prev[a + n0]);
                    } else {
                        assert(s[a] == prev.skip(n0)[a]);
                        assert(s[b] == prev.skip(n0)[b]);
                    }
                }
            }
        }
        let ghost old_rem = rem;
        rem = rem & (rem - 1);
        proof {
            lemma_lowest_bit(old_rem);
            assert forall|i: int| n0 <= i < out@.len() implies !bit(rem, mv_from(#[trigger] out@[i])) by {
                lemma_field_lt(out@[i]);
            }
            assert forall|t: u64| t < 64 implies !bit(attacks, t) by {
                lemma_bit_ops(attacks, attacks, t);
            }
        }
    }
    proof {
        assert forall|j: u64| j < 64 implies !bit(rem, j) by {
            lemma_bit_ops(rem, rem, j);
        }
        let p = |m: u64| is_step_move(v, k, froms, m);
        assert forall|m: u64| appended(before, out@).contains(m) <==> #[trigger] p(m) by {
            if appended(before, out@).contains(m) {
                let i = appended(before, out@).index_of(m);
                assert(out@[i + n0] == m);
                let f = mv_from(m);
                let t = mv_to(m);
                assert(step_move(v, k, f, t) == m);
            }
            if p(m) {
                let (f, t) = choose|f: u64, t: u64|
                    #![trigger step_move(v, k, f, t)]
                    f < 64 && bit(froms, f) && step_target(v, k, f, t) && m == step_move(v, k, f, t);
                assert(out@.skip(n0).contains(step_move(v, k, f, t)));
            }
        }
    }
}

/// The origin field of a packed move is below 64.
proof fn lemma_field_lt(m: u64)
    ensures
        mv_from(m) < 64,
        mv_to(m) < 64,
{
    crate::move_descriptions::lemma_field_bounds(m);
}

/// Appending nothing extends a list by a predicate that holds of no move.
pub proof fn lemma_extends_empty(a: Seq<u64>, p: spec_fn(u64) -> bool)
    requires
        forall|m: u64| !#[trigger] p(m),
    ensures
        extends_with(a, a, p),
{
    assert(a.subrange(0, a.len() as int) =~= a);
    assert(appended(a, a) =~= Seq::<u64>::empty());
}

/// Two extensions by disjoint predicates make one extension by their union.
pub proof fn lemma_extends_concat(
    a: Seq<u64>,
    b: Seq<u64>,
    c: Seq<u64>,
    p: spec_fn(u64) -> bool,
    q: spec_fn(u64) -> bool,
)
    requires
        extends_with(a, b, p),
        extends_with(b, c, q),
        forall|m: u64| !(#[trigger] p(m) && q(m)),
    ensures
        extends_with(a, c, |m: u64| p(m) || q(m)),
{
    let x = appended(a, b);
    let y = appended(b, c);
    assert(c.subrange(0, a.len() as int) =~= a) by {
        assert forall|i: int| 0 <= i < a.len() implies c.subrange(0, a.len() as int)[i] == a[i] by {
            assert(c.subrange(0, b.len() as int)[i] == b[i]);
            assert(b.subrange(0, a.len() as int)[i] == a[i]);
        }
    }
    assert(appended(a, c) =~= x + y) by {
        assert forall|i: int| 0 <= i < appended(a, c).len() implies appended(a, c)[i] == (x + y)[i] by {
            if i < x.len() {
                assert(c.subrange(0, b.len() as int)[i + a.len()] == b[i + a.len()]);
            }
        }
    }
    assert forall|i: int, j: int|
        0 <= i < (x + y).len() && 0 <= j < (x + y).len() && i != j implies (x + y)[i] != (x + y)[j] by {
        if i < x.len() && j >= x.len() {
            assert(x.contains(x[i]));
            assert(y.contains(y[j - x.len()]));
            assert(p(x[i]));
            assert(q(y[j - x.len()]));
        } else if j < x.len() && i >= x.len() {
            assert(x.contains(x[j]));
            assert(y.contains(y[i - x.len()]));
            assert(p(x[j]));
            assert(q(y[i - x.len()]));
        }
    }
    assert forall|m: u64| #[trigger] appended(a, c).contains(m) <==> (p(m) || q(m)) by {
        if (x + y).contains(m) {
            let i = (x + y).index_of(m);
            if i < x.len() {
                assert(x.contains(x[i]));
            } else {
                assert(y.contains(y[i - x.len()]));
            }
        }
        if p(m) {
            let i = x.index_of(m);
            assert((x + y)[i] == m);
        }
        if q(m) {
            let i = y.index_of(m);
            assert((x + y)[i + x.len()] == m);
        }
    }
}

/// An extension by `p` is one by any predicate that agrees with `p`.
pub proof fn lemma_extends_equiv(a: Seq<u64>, b: Seq<u64>, p: spec_fn(u64) -> bool, q: spec_fn(u64) -> bool)
    requires
        extends_with(a, b, p),
        forall|m: u64| #[trigger] p(m) == q(m),
    ensures
        extends_with(a, b, q),
{
    assert forall|m: u64| appended(a, b).contains(m) <==> #[trigger] q(m) by {
        assert(p(m) == q(m));
    }
}

/// The bitboard of the side to move's pieces of kind `k`.
pub open spec fn own_board(v: GameStateView, k: PieceKind) -> u64 {
    v.pieces[v.side_to_move.idx() as int][k.idx() as int]
}

/// `m` is a pseudo-legal move of one of the mover's pieces of kind `k`.
pub open spec fn is_piece_move(v: GameStateView, k: PieceKind, m: u64) -> bool {
    is_step_move(v, k, own_board(v, k), m)
}

/// Append the pseudo-legal moves of all the mover's pieces of kind `k`.
pub(crate) fn push_piece_moves(game_state: &GameState, out: &mut Vec<u64>, k: PieceKind)
    requires
        k != PieceKind::Pawn,
    ensures
        extends_with(old(out)@, final(out)@, |m: u64| is_piece_move(game_state@, k, m)),
{
    let froms = game_state.pieces[game_state.side_to_move.index()][k.index()];
    let ghost before = out@;
    push_step_moves(game_state, out, k, froms);
    proof {
        lemma_extends_equiv(
            before,
            out@,
            |m: u64| is_step_move(game_state@, k, froms, m),
            |m: u64| is_piece_move(game_state@, k, m),
        );
    }
}

/// Appending a sequence without repeats extends a list by membership in it.
pub proof fn lemma_extends_seq(a: Seq<u64>, s: Seq<u64>)
    requires
        s.no_duplicates(),
    ensures
        extends_with(a, a + s, |m: u64| s.contains(m)),
{
    assert((a + s).subrange(0, a.len() as int) =~= a);
    assert(appended(a, a + s) =~= s);
}


/// Every knight, bishop, rook or queen move of the side to move in a
/// well-formed position, and every step of its king to a square `from`
/// reaches, is reversible: making it and then unmaking it gives back the
/// position, flags, clocks, keys, history and undo stack.
pub proof fn lemma_step_moves_round_trip(v: GameStateView, k: PieceKind, from: u64, to: u64)
    requires
        v.wf(),
        k != PieceKind::Pawn,
        from < 64,
        v.has(v.side_to_move, k, from),
        step_target(v, k, from, to),
        v.repetition_history.len() <= usize::MAX,
    ensures
        crate::legal_move_apply::reversible(v, step_move(v, k, from, to)),
        crate::legal_move_apply::unmade(crate::legal_move_apply::made(v, step_move(v, k, from, to))) == v,
{
    let m = step_move(v, k, from, to);
    let occ = v.occupancy_all;
    lemma_step_move_fields(v, k, from, to);
    match k {
        PieceKind::Knight => crate::attacks::lemma_jump_leaves(from as int, to as int),
        PieceKind::King => crate::attacks::lemma_jump_leaves(from as int, to as int),
        PieceKind::Queen => crate::attacks::lemma_slide_leaves(from as int, occ, to as int),
        _ => crate::attacks::lemma_slide_leaves(from as int, occ, to as int),
    }
    crate::legal_move_apply::lemma_occupant_unique(v, from);
    crate::legal_move_apply::lemma_occupant_unique(v, to);
    let mover = v.side_to_move;
    assert(bit(v.occupancy_by_color[mover.idx() as int], to) <==> v.kind_at(mover, to) is Some);
    match v.occupant(to) {
        Some((c, kk)) => {
            assert(v.has(c, kk, to));
        },
        None => {},
    }
    assert(crate::legal_move_apply::reversible(v, m));
    crate::legal_move_apply::lemma_make_unmake_roundtrip(v, m);
}

} // verus!
