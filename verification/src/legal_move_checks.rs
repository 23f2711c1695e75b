//! Attack and check detection on a `GameState`.

use vstd::prelude::*;
use crate::attacks::{bishop_attack, bishop_attacks, king_attack, king_attacks, knight_attack, knight_attacks, pawn_attack, pawn_attacks, rook_attack, rook_attacks, lemma_bishop_symmetric, lemma_king_symmetric, lemma_knight_symmetric, lemma_rook_symmetric};
use crate::bits::{bit, intersects, lemma_lowest_bit, lemma_clear_lowest_smaller, lemma_mask_ops};
use crate::chess_types::{Color, PieceKind, Square};
use crate::game_state::{GameState, GameStateView};
use crate::piece_moves::{piece_attack, piece_attacks};

verus! {

/// The lowest square set in a bitboard.
pub open spec fn lowest_square(b: u64) -> u64 {
    vstd::std_specs::bits::u64_trailing_zeros(b) as u64
}

/// The square of `color`'s king (the lowest, if there are several).
pub open spec fn king_sq(v: GameStateView, color: Color) -> Option<u64> {
    let kings = v.pieces[color.idx() as int][PieceKind::King.idx() as int];
    if kings == 0 {
        None
    } else {
        Some(lowest_square(kings))
    }
}

/// Square `sq` is attacked by side `c`: one of `c`'s pawns attacks it, or a
/// knight, king, bishop-or-queen, rook-or-queen of `c` stands where that
/// piece kind placed on `sq` would attack (attacks are symmetric).
pub open spec fn square_attacked(v: GameStateView, sq: u64, c: Color) -> bool {
    ||| exists|from: u64|
        from < 64 && v.has(c, PieceKind::Pawn, from) && pawn_attack(c, from as int, sq as int)
    ||| exists|from: u64| from < 64 && v.has(c, PieceKind::Knight, from) && knight_attack(sq as int, from as int)
    ||| exists|from: u64| from < 64 && v.has(c, PieceKind::King, from) && king_attack(sq as int, from as int)
    ||| exists|from: u64|
        from < 64 && (v.has(c, PieceKind::Bishop, from) || v.has(c, PieceKind::Queen, from))
            && bishop_attack(sq as int, v.occupancy_all, from as int)
    ||| exists|from: u64|
        from < 64 && (v.has(c, PieceKind::Rook, from) || v.has(c, PieceKind::Queen, from))
            && rook_attack(sq as int, v.occupancy_all, from as int)
}

/// Side `c`'s king stands on an attacked square.
pub open spec fn king_in_check(v: GameStateView, c: Color) -> bool {
    match king_sq(v, c) {
        Some(k) => square_attacked(v, k, c.other()),
        None => false,
    }
}

/// A king square lies on the board.
pub proof fn lemma_king_sq_bound(v: GameStateView, c: Color)
    ensures
        king_sq(v, c) matches Some(s) ==> s < 64,
{
    let kings = v.pieces[c.idx() as int][PieceKind::King.idx() as int];
    if kings != 0 {
        lemma_lowest_bit(kings);
    }
}

/// The square of `color`'s king, if it has one (the lowest if several).
pub fn king_square(game_state: &GameState, color: Color) -> (r: Option<Square>)
    ensures
        r matches Some(s) ==> king_sq(game_state@, color) == Some(s as u64) && s < 64,
        r is None <==> king_sq(game_state@, color) is None,
{
    let kings = game_state.pieces[color.index()][PieceKind::King.index()];
    if kings == 0 {
        None
    } else {
        proof {
            lemma_lowest_bit(kings);
        }
        Some(kings.trailing_zeros() as Square)
    }
}

/// Whether `color`'s king is attacked.
pub fn is_king_in_check(game_state: &GameState, color: Color) -> (r: bool)
    ensures
        r == king_in_check(game_state@, color),
{
    let king_sq = match king_square(game_state, color) {
        Some(s) => s,
        None => {
            return false;
        },
    };
    is_square_attacked(game_state, king_sq, color.opposite())
}

/// Whether some pawn of `color` in `pawns` attacks `square`.
fn any_pawn_attacks(pawns: u64, color: Color, square: Square) -> (r: bool)
    requires
        square < 64,
    ensures
        r == exists|from: u64| from < 64 && bit(pawns, from) && pawn_attack(color, from as int, square as int),
{
    let target_mask = 1u64 << square;
    let mut rem = pawns;
    while rem != 0
        invariant
            square < 64,
            target_mask == 1u64 << square,
            forall|j: u64| j < 64 && bit(rem, j) ==> bit(pawns, j),
            forall|j: u64| j < 64 && bit(pawns, j) && !bit(rem, j) ==> !pawn_attack(color, j as int, square as int),
        decreases rem,
    {
        proof {
            lemma_lowest_bit(rem);
            lemma_clear_lowest_smaller(rem);
        }
        let from = rem.trailing_zeros() as Square;
        let att = pawn_attacks(color, from);
        proof {
            lemma_mask_ops(att, square as u64, 0);
        }
        if att & target_mask != 0 {
            assert(bit(pawns, from as u64) && pawn_attack(color, from as int, square as int));
            return true;
        }
        rem = rem & (rem - 1);
    }
    proof {
        assert forall|j: u64| j < 64 implies !bit(rem, j) by {
            crate::bits::lemma_bit_ops(rem, rem, j);
        }
    }
    false
}

/// Whether side `attacker_color` attacks `square`.
pub fn is_square_attacked(game_state: &GameState, square: Square, attacker_color: Color) -> (r: bool)
    requires
        square < 64,
    ensures
        r == square_attacked(game_state@, square as u64, attacker_color),
{
    let ghost v = game_state@;
    let c = attacker_color.index();
    let attacker_pawns = game_state.pieces[c][PieceKind::Pawn.index()];
    if any_pawn_attacks(attacker_pawns, attacker_color, square) {
        return true;
    }
    let ka = knight_attacks(square);
    if intersects(ka, game_state.pieces[c][PieceKind::Knight.index()]) {
        return true;
    }
    let kia = king_attacks(square);
    if intersects(kia, game_state.pieces[c][PieceKind::King.index()]) {
        return true;
    }
    let bishops_queens = game_state.pieces[c][PieceKind::Bishop.index()]
        | game_state.pieces[c][PieceKind::Queen.index()];
    proof {
        assert forall|t: u64| t < 64 implies bit(bishops_queens, t) == (v.has(attacker_color, PieceKind::Bishop, t) || v.has(attacker_color, PieceKind::Queen, t)) by {
            crate::bits::lemma_bit_ops(game_state.pieces[c as int][2], game_state.pieces[c as int][4], t);
        }
    }
    let ba = bishop_attacks(square, game_state.occupancy_all);
    if intersects(ba, bishops_queens) {
        return true;
    }
    let rooks_queens = game_state.pieces[c][PieceKind::Rook.index()]
        | game_state.pieces[c][PieceKind::Queen.index()];
    proof {
        assert forall|t: u64| t < 64 implies bit(rooks_queens, t) == (v.has(attacker_color, PieceKind::Rook, t) || v.has(attacker_color, PieceKind::Queen, t)) by {
            crate::bits::lemma_bit_ops(game_state.pieces[c as int][3], game_state.pieces[c as int][4], t);
        }
    }
    let ra = rook_attacks(square, game_state.occupancy_all);
    if intersects(ra, rooks_queens) {
        return true;
    }
    proof {
        let sqi = square as int;
        if exists|from: u64|
            from < 64 && v.has(attacker_color, PieceKind::Pawn, from) && pawn_attack(attacker_color, from as int, sqi) {
            let from = choose|from: u64|
                from < 64 && v.has(attacker_color, PieceKind::Pawn, from) && pawn_attack(attacker_color, from as int, sqi);
            assert(bit(attacker_pawns, from));
        }
        if exists|from: u64| from < 64 && v.has(attacker_color, PieceKind::Knight, from) && knight_attack(sqi, from as int) {
            let from = choose|from: u64| from < 64 && v.has(attacker_color, PieceKind::Knight, from) && knight_attack(sqi, from as int);
            assert(bit(ka, from));
        }
        if exists|from: u64| from < 64 && v.has(attacker_color, PieceKind::King, from) && king_attack(sqi, from as int) {
            let from = choose|from: u64| from < 64 && v.has(attacker_color, PieceKind::King, from) && king_attack(sqi, from as int);
            assert(bit(kia, from));
        }
        if exists|from: u64|
            from < 64 && (v.has(attacker_color, PieceKind::Bishop, from) || v.has(attacker_color, PieceKind::Queen, from))
                && bishop_attack(sqi, v.occupancy_all, from as int) {
            let from = choose|from: u64|
                from < 64 && (v.has(attacker_color, PieceKind::Bishop, from) || v.has(attacker_color, PieceKind::Queen, from))
                    && bishop_attack(sqi, v.occupancy_all, from as int);
            assert(bit(ba, from));
            assert(bit(bishops_queens, from));
        }
        if exists|from: u64|
            from < 64 && (v.has(attacker_color, PieceKind::Rook, from) || v.has(attacker_color, PieceKind::Queen, from))
                && rook_attack(sqi, v.occupancy_all, from as int) {
            let from = choose|from: u64|
                from < 64 && (v.has(attacker_color, PieceKind::Rook, from) || v.has(attacker_color, PieceKind::Queen, from))
                    && rook_attack(sqi, v.occupancy_all, from as int);
            assert(bit(ra, from));
            assert(bit(rooks_queens, from));
        }
    }
    false
}

/// A piece of kind `k` of side `c` on `from` attacks `target`.
pub open spec fn attacks_from(v: GameStateView, c: Color, k: PieceKind, from: u64, target: u64) -> bool {
    &&& v.has(c, k, from)
    &&& if k == PieceKind::Pawn {
        pawn_attack(c, from as int, target as int)
    } else {
        piece_attack(k, from as int, v.occupancy_all, target as int)
    }
}

/// Order key of an attacker entry: by piece kind, then by square.
pub open spec fn attacker_rank(e: (Square, PieceKind)) -> int {
    e.1.idx() * 64 + e.0
}

/// Append, lowest square first, the pieces of kind `k` of side `c` (whose
/// board is `board`) that attack `square`.
fn push_attackers(
    game_state: &GameState,
    out: &mut Vec<(Square, PieceKind)>,
    c: Color,
    k: PieceKind,
    square: Square,
)
    requires
        square < 64,
    ensures
        old(out)@.len() <= final(out)@.len(),
        final(out)@.subrange(0, old(out)@.len() as int) == old(out)@,
        forall|i: int|
            old(out)@.len() <= i < final(out)@.len() ==> (#[trigger] final(out)@[i]).1 == k && final(out)@[i].0
                < 64 && attacks_from(game_state@, c, k, final(out)@[i].0 as u64, square as u64),
        forall|sq: u64|
            sq < 64 && attacks_from(game_state@, c, k, sq, square as u64) ==> #[trigger] final(out)@.skip(
                old(out)@.len() as int,
            ).contains((sq as u8, k)),
        forall|i: int, j: int|
            old(out)@.len() <= i < j < final(out)@.len() ==> (#[trigger] final(out)@[i]).0 < (
            #[trigger] final(out)@[j]).0,
{
    let ghost v = game_state@;
    let ghost before = out@;
    let ghost n0 = out@.len() as int;
    let board = game_state.pieces[c.index()][k.index()];
    let target_mask = 1u64 << square;
    let mut rem = board;
    while rem != 0
        invariant
            v == game_state@,
            square < 64,
            target_mask == 1u64 << square,
            board == v.pieces[c.idx() as int][k.idx() as int],
            n0 == before.len(),
            n0 <= out@.len(),
            out@.subrange(0, n0) == before,
            forall|j: u64| j < 64 && bit(rem, j) ==> bit(board, j),
            forall|i: int|
                n0 <= i < out@.len() ==> (#[trigger] out@[i]).1 == k && out@[i].0 < 64 && attacks_from(
                    v,
                    c,
                    k,
                    out@[i].0 as u64,
                    square as u64,
                ) && forall|j: u64| j < 64 && bit(rem, j) ==> out@[i].0 < j,
            forall|sq: u64|
                sq < 64 && attacks_from(v, c, k, sq, square as u64) && !bit(rem, sq)
                    ==> #[trigger] out@.skip(n0).contains((sq as u8, k)),
            forall|i: int, j: int| n0 <= i < j < out@.len() ==> (#[trigger] out@[i]).0 < (#[trigger] out@[j]).0,
        decreases rem,
    {
        proof {
            lemma_lowest_bit(rem);
            lemma_clear_lowest_smaller(rem);
        }
        let from = rem.trailing_zeros() as Square;
        let att = if k == PieceKind::Pawn {
            pawn_attacks(c, from)
        } else {
            piece_attacks(k, from, game_state.occupancy_all)
        };
        proof {
            lemma_mask_ops(att, square as u64, 0);
            assert(att & target_mask == target_mask & att) by (bit_vector);
        }
        let ghost prev = out@;
        let hit = (att & target_mask) != 0;
        assert(hit == attacks_from(v, c, k, from as u64, square as u64));
        if hit {
            out.push((from, k));
        }
        let ghost old_rem = rem;
        rem = rem & (rem - 1);
        proof {
            assert(out@.subrange(0, n0) =~= prev.subrange(0, n0));
            assert forall|sq: u64|
                sq < 64 && attacks_from(v, c, k, sq, square as u64) && !bit(rem, sq) implies #[trigger] out@.skip(
                n0,
            ).contains((sq as u8, k)) by {
                if !bit(old_rem, sq) {
                    assert(prev.skip(n0).contains((sq as u8, k)));
                    let w = prev.skip(n0).index_of((sq as u8, k));
                    assert(out@.skip(n0)[w] == (sq as u8, k));
                } else {
                    assert(sq == from as u64);
                    assert(out@.skip(n0)[out@.len() - 1 - n0] == (sq as u8, k));
                }
            }
        }
    }
    proof {
        assert forall|j: u64| j < 64 implies !bit(rem, j) by {
            crate::bits::lemma_bit_ops(rem, rem, j);
        }
    }
}

/// Order and kinds of a list of attacker entries.
proof fn lemma_attackers_append(s: Seq<(Square, PieceKind)>, t: Seq<(Square, PieceKind)>, k: PieceKind)
    requires
        forall|i: int, j: int| 0 <= i < j < s.len() ==> attacker_rank(#[trigger] s[i]) < attacker_rank(#[trigger] s[j]),
        forall|i: int| 0 <= i < s.len() ==> (#[trigger] s[i]).1.idx() < k.idx() && s[i].0 < 64,
        forall|i: int| 0 <= i < t.len() ==> (#[trigger] t[i]).1 == k && t[i].0 < 64,
        forall|i: int, j: int| 0 <= i < j < t.len() ==> (#[trigger] t[i]).0 < (#[trigger] t[j]).0,
    ensures
        forall|i: int, j: int|
            0 <= i < j < (s + t).len() ==> attacker_rank(#[trigger] (s + t)[i]) < attacker_rank(
                #[trigger] (s + t)[j],
            ),
        forall|i: int| 0 <= i < (s + t).len() ==> (#[trigger] (s + t)[i]).1.idx() <= k.idx() && (s + t)[i].0 < 64,
{
    assert forall|i: int, j: int| 0 <= i < j < (s + t).len() implies attacker_rank(#[trigger] (s + t)[i]) < attacker_rank(
        #[trigger] (s + t)[j],
    ) by {
        if j < s.len() {
        } else if i >= s.len() {
            assert((s + t)[i] == t[i - s.len()]);
            assert((s + t)[j] == t[j - s.len()]);
        } else {
            assert((s + t)[i] == s[i]);
            assert((s + t)[j] == t[j - s.len()]);
        }
    }
    assert forall|i: int| 0 <= i < (s + t).len() implies (#[trigger] (s + t)[i]).1.idx() <= k.idx() && (s + t)[i].0 < 64 by {
        if i >= s.len() {
            assert((s + t)[i] == t[i - s.len()]);
        }
    }
}

/// The pieces of `attacker_color` that attack `square`, by kind (pawns,
/// knights, bishops, rooks, queens, kings) and by square within a kind.
pub fn attackers_to_square(game_state: &GameState, square: Square, attacker_color: Color) -> (r: Vec<(Square, PieceKind)>)
    requires
        square < 64,
    ensures
        forall|e: (Square, PieceKind)|
            #[trigger] r@.contains(e) <==> (e.0 < 64 && attacks_from(game_state@, attacker_color, e.1, e.0 as u64, square as u64)),
        forall|i: int, j: int| 0 <= i < j < r@.len() ==> attacker_rank(#[trigger] r@[i]) < attacker_rank(#[trigger] r@[j]),
{
    let ghost v = game_state@;
    let mut attackers: Vec<(Square, PieceKind)> = Vec::new();
    let kinds = [
        PieceKind::Pawn,
        PieceKind::Knight,
        PieceKind::Bishop,
        PieceKind::Rook,
        PieceKind::Queen,
        PieceKind::King,
    ];
    let mut n: usize = 0;
    while n < 6
        invariant
            v == game_state@,
            square < 64,
            n <= 6,
            forall|q: int| 0 <= q < 6 ==> (#[trigger] kinds[q]).idx() == q,
            forall|i: int, j: int| 0 <= i < j < attackers@.len() ==> attacker_rank(#[trigger] attackers@[i]) < attacker_rank(#[trigger] attackers@[j]),
            forall|i: int| 0 <= i < attackers@.len() ==> (#[trigger] attackers@[i]).1.idx() < n && attackers@[i].0 < 64,
            forall|i: int| 0 <= i < attackers@.len() ==> attacks_from(v, attacker_color, (#[trigger] attackers@[i]).1, attackers@[i].0 as u64, square as u64),
            forall|e: (Square, PieceKind)|
                e.0 < 64 && e.1.idx() < n && attacks_from(v, attacker_color, e.1, e.0 as u64, square as u64) ==> #[trigger] attackers@.contains(e),
        decreases 6 - n,
    {
        let k = kinds[n];
        let ghost s = attackers@;
        push_attackers(game_state, &mut attackers, attacker_color, k, square);
        proof {
            let t = attackers@.skip(s.len() as int);
            assert(attackers@ =~= s + t);
            assert forall|i: int| 0 <= i < t.len() implies (#[trigger] t[i]).1 == k && t[i].0 < 64 by {
                assert(t[i] == attackers@[i + s.len()]);
            }
            assert forall|i: int, j: int| 0 <= i < j < t.len() implies (#[trigger] t[i]).0 < (#[trigger] t[j]).0 by {
                assert(t[i] == attackers@[i + s.len()]);
                assert(t[j] == attackers@[j + s.len()]);
            }
            lemma_attackers_append(s, t, k);
            assert forall|i: int| 0 <= i < attackers@.len() implies attacks_from(v, attacker_color, (#[trigger] attackers@[i]).1, attackers@[i].0 as u64, square as u64) by {
                if i < s.len() {
                    assert(attackers@[i] == s[i]);
                }
            }
            assert forall|e: (Square, PieceKind)|
                e.0 < 64 && e.1.idx() < n + 1 && attacks_from(v, attacker_color, e.1, e.0 as u64, square as u64) implies #[trigger] attackers@.contains(e) by {
                if e.1.idx() < n {
                    assert(s.contains(e));
                    let w = s.index_of(e);
                    assert(attackers@[w] == e);
                } else {
                    assert(e.1 == k);
                    assert(t.contains((e.0 as u64 as u8, k)));
                    let w = t.index_of(e);
                    assert(attackers@[w + s.len()] == e);
                }
            }
        }
        n = n + 1;
    }
    proof {
        assert forall|e: (Square, PieceKind)|
            #[trigger] attackers@.contains(e) implies (e.0 < 64 && attacks_from(v, attacker_color, e.1, e.0 as u64, square as u64)) by {
            let w = attackers@.index_of(e);
            assert(attackers@[w] == e);
        }
        assert forall|e: (Square, PieceKind)|
            (e.0 < 64 && attacks_from(v, attacker_color, e.1, e.0 as u64, square as u64)) implies #[trigger] attackers@.contains(e) by {
            assert(e.1.idx() < 6);
        }
    }
    attackers
}


/// A square is attacked by side `c` exactly when some piece of `c`
/// attacks it: the attack test of `is_square_attacked` and the attacker
/// list of `attackers_to_square` agree (attacks are symmetric).
pub proof fn lemma_attacked_iff_some_attacker(v: GameStateView, sq: u64, c: Color)
    requires
        sq < 64,
    ensures
        square_attacked(v, sq, c) <==> exists|from: u64, k: PieceKind|
            from < 64 && #[trigger] attacks_from(v, c, k, from, sq),
{
    let occ = v.occupancy_all;
    let s = sq as int;
    if square_attacked(v, sq, c) {
        if exists|from: u64| from < 64 && v.has(c, PieceKind::Pawn, from) && pawn_attack(c, from as int, s) {
            let from = choose|from: u64| from < 64 && v.has(c, PieceKind::Pawn, from) && pawn_attack(c, from as int, s);
            assert(attacks_from(v, c, PieceKind::Pawn, from, sq));
        } else if exists|from: u64| from < 64 && v.has(c, PieceKind::Knight, from) && knight_attack(s, from as int) {
            let from = choose|from: u64| from < 64 && v.has(c, PieceKind::Knight, from) && knight_attack(s, from as int);
            lemma_knight_symmetric(s, from as int);
            assert(attacks_from(v, c, PieceKind::Knight, from, sq));
        } else if exists|from: u64| from < 64 && v.has(c, PieceKind::King, from) && king_attack(s, from as int) {
            let from = choose|from: u64| from < 64 && v.has(c, PieceKind::King, from) && king_attack(s, from as int);
            lemma_king_symmetric(s, from as int);
            assert(attacks_from(v, c, PieceKind::King, from, sq));
        } else if exists|from: u64|
            from < 64 && (v.has(c, PieceKind::Bishop, from) || v.has(c, PieceKind::Queen, from))
                && bishop_attack(s, occ, from as int) {
            let from = choose|from: u64|
                from < 64 && (v.has(c, PieceKind::Bishop, from) || v.has(c, PieceKind::Queen, from))
                    && bishop_attack(s, occ, from as int);
            lemma_bishop_symmetric(s, occ, from as int);
            if v.has(c, PieceKind::Bishop, from) {
                assert(attacks_from(v, c, PieceKind::Bishop, from, sq));
            } else {
                assert(attacks_from(v, c, PieceKind::Queen, from, sq));
            }
        } else {
            let from = choose|from: u64|
                from < 64 && (v.has(c, PieceKind::Rook, from) || v.has(c, PieceKind::Queen, from))
                    && rook_attack(s, occ, from as int);
            lemma_rook_symmetric(s, occ, from as int);
            if v.has(c, PieceKind::Rook, from) {
                assert(attacks_from(v, c, PieceKind::Rook, from, sq));
            } else {
                assert(attacks_from(v, c, PieceKind::Queen, from, sq));
            }
        }
    }
    if exists|from: u64, k: PieceKind| from < 64 && #[trigger] attacks_from(v, c, k, from, sq) {
        let (from, k) = choose|from: u64, k: PieceKind| from < 64 && #[trigger] attacks_from(v, c, k, from, sq);
        let f = from as int;
        match k {
            PieceKind::Pawn => {
                assert(pawn_attack(c, f, s));
            },
            PieceKind::Knight => {
                lemma_knight_symmetric(f, s);
                assert(knight_attack(s, f));
            },
            PieceKind::King => {
                lemma_king_symmetric(f, s);
                assert(king_attack(s, f));
            },
            PieceKind::Bishop => {
                lemma_bishop_symmetric(f, occ, s);
                assert(bishop_attack(s, occ, f));
            },
            PieceKind::Rook => {
                lemma_rook_symmetric(f, occ, s);
                assert(rook_attack(s, occ, f));
            },
            PieceKind::Queen => {
                if rook_attack(f, occ, s) {
                    lemma_rook_symmetric(f, occ, s);
                    assert(rook_attack(s, occ, f));
                } else {
                    lemma_bishop_symmetric(f, occ, s);
                    assert(bishop_attack(s, occ, f));
                }
            },
        }
    }
}

} // verus!
