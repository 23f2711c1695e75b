//! Attack sets of every piece kind as bitboards (rank-major squares:
//! square = 8 * rank + file).

use vstd::prelude::*;
use crate::bits::{bit, lemma_bit_ops, lemma_square_mask};
use crate::chess_types::{Color, Square};

verus! {

/// File (0..8) of a square.
pub open spec fn file_of(s: int) -> int {
    s % 8
}

/// Rank (0..8) of a square.
pub open spec fn rank_of(s: int) -> int {
    s / 8
}

/// Whether file `f` and rank `r` lie on the board.
pub open spec fn on_board(f: int, r: int) -> bool {
    0 <= f < 8 && 0 <= r < 8
}

/// The square reached from `s` by `(df, dr)`, if it lies on the board.
pub open spec fn offset(s: int, df: int, dr: int) -> Option<int> {
    if on_board(file_of(s) + df, rank_of(s) + dr) {
        Some(8 * (rank_of(s) + dr) + file_of(s) + df)
    } else {
        None
    }
}

/// `t` is a knight's jump away from `s`.
pub open spec fn knight_attack(s: int, t: int) -> bool {
    ||| offset(s, 1, 2) == Some(t)
    ||| offset(s, 2, 1) == Some(t)
    ||| offset(s, 2, -1) == Some(t)
    ||| offset(s, 1, -2) == Some(t)
    ||| offset(s, -1, -2) == Some(t)
    ||| offset(s, -2, -1) == Some(t)
    ||| offset(s, -2, 1) == Some(t)
    ||| offset(s, -1, 2) == Some(t)
}

/// `t` is a king's step away from `s`.
pub open spec fn king_attack(s: int, t: int) -> bool {
    ||| offset(s, 1, 0) == Some(t)
    ||| offset(s, 1, 1) == Some(t)
    ||| offset(s, 0, 1) == Some(t)
    ||| offset(s, -1, 1) == Some(t)
    ||| offset(s, -1, 0) == Some(t)
    ||| offset(s, -1, -1) == Some(t)
    ||| offset(s, 0, -1) == Some(t)
    ||| offset(s, 1, -1) == Some(t)
}

/// Forward rank step of a side.
pub open spec fn pawn_dir(c: Color) -> int {
    match c {
        Color::Light => 1,
        Color::Dark => -1,
    }
}

/// `t` is diagonally in front of a pawn of side `c` on `s`.
pub open spec fn pawn_attack(c: Color, s: int, t: int) -> bool {
    ||| offset(s, -1, pawn_dir(c)) == Some(t)
    ||| offset(s, 1, pawn_dir(c)) == Some(t)
}

/// `t` lies on the ray from file `f`, rank `r` in direction `(df, dr)`,
/// at or before the first occupied square of `occ`.
pub open spec fn ray_from(f: int, r: int, df: int, dr: int, occ: u64, t: int, fuel: nat) -> bool
    decreases fuel,
{
    if fuel == 0 {
        false
    } else if !on_board(f + df, r + dr) {
        false
    } else if 8 * (r + dr) + f + df == t {
        true
    } else if bit(occ, (8 * (r + dr) + f + df) as u64) {
        false
    } else {
        ray_from(f + df, r + dr, df, dr, occ, t, (fuel - 1) as nat)
    }
}

/// `t` is on a ray from `s` in direction `(df, dr)` up to the first blocker.
pub open spec fn ray_attack(s: int, df: int, dr: int, occ: u64, t: int) -> bool {
    ray_from(file_of(s), rank_of(s), df, dr, occ, t, 8)
}

/// `t` is attacked by a rook on `s` given occupancy `occ`.
pub open spec fn rook_attack(s: int, occ: u64, t: int) -> bool {
    ||| ray_attack(s, 1, 0, occ, t)
    ||| ray_attack(s, -1, 0, occ, t)
    ||| ray_attack(s, 0, 1, occ, t)
    ||| ray_attack(s, 0, -1, occ, t)
}

/// `t` is attacked by a bishop on `s` given occupancy `occ`.
pub open spec fn bishop_attack(s: int, occ: u64, t: int) -> bool {
    ||| ray_attack(s, 1, 1, occ, t)
    ||| ray_attack(s, -1, 1, occ, t)
    ||| ray_attack(s, 1, -1, occ, t)
    ||| ray_attack(s, -1, -1, occ, t)
}

/// `t` is attacked by a queen on `s` given occupancy `occ`.
pub open spec fn queen_attack(s: int, occ: u64, t: int) -> bool {
    rook_attack(s, occ, t) || bishop_attack(s, occ, t)
}

/// Squares and their coordinates: a square on the board is its rank times
/// eight plus its file, and such a sum gives back its file and rank.
pub proof fn lemma_square_coords(f: int, r: int)
    requires
        on_board(f, r),
    ensures
        file_of(8 * r + f) == f,
        rank_of(8 * r + f) == r,
{
    assert((8 * r + f) / 8 == r && (8 * r + f) % 8 == f) by (nonlinear_arith)
        requires
            0 <= f < 8,
            0 <= r < 8,
    ;
}

/// A square of the board lies at its file and rank.
pub proof fn lemma_square_split(s: int)
    requires
        0 <= s < 64,
    ensures
        on_board(file_of(s), rank_of(s)),
        s == 8 * rank_of(s) + file_of(s),
{
    assert(0 <= s % 8 < 8 && 0 <= s / 8 < 8 && s == 8 * (s / 8) + s % 8) by (nonlinear_arith)
        requires
            0 <= s < 64,
    ;
}

/// Stepping back undoes a step: `t` is `(df, dr)` from `s` exactly when
/// `s` is `(-df, -dr)` from `t`.
pub proof fn lemma_offset_reverse(s: int, t: int, df: int, dr: int)
    requires
        0 <= s < 64,
        offset(s, df, dr) == Some(t),
    ensures
        offset(t, -df, -dr) == Some(s),
{
    lemma_square_split(s);
    lemma_square_coords(file_of(s) + df, rank_of(s) + dr);
}

/// A knight's jump is symmetric.
pub proof fn lemma_knight_symmetric(s: int, t: int)
    requires
        0 <= s < 64,
        knight_attack(s, t),
    ensures
        knight_attack(t, s),
{
    if offset(s, 1, 2) == Some(t) {
        lemma_offset_reverse(s, t, 1, 2);
    } else if offset(s, 2, 1) == Some(t) {
        lemma_offset_reverse(s, t, 2, 1);
    } else if offset(s, 2, -1) == Some(t) {
        lemma_offset_reverse(s, t, 2, -1);
    } else if offset(s, 1, -2) == Some(t) {
        lemma_offset_reverse(s, t, 1, -2);
    } else if offset(s, -1, -2) == Some(t) {
        lemma_offset_reverse(s, t, -1, -2);
    } else if offset(s, -2, -1) == Some(t) {
        lemma_offset_reverse(s, t, -2, -1);
    } else if offset(s, -2, 1) == Some(t) {
        lemma_offset_reverse(s, t, -2, 1);
    } else {
        lemma_offset_reverse(s, t, -1, 2);
    }
}

/// A king's step is symmetric.
pub proof fn lemma_king_symmetric(s: int, t: int)
    requires
        0 <= s < 64,
        king_attack(s, t),
    ensures
        king_attack(t, s),
{
    if offset(s, 1, 0) == Some(t) {
        lemma_offset_reverse(s, t, 1, 0);
    } else if offset(s, 1, 1) == Some(t) {
        lemma_offset_reverse(s, t, 1, 1);
    } else if offset(s, 0, 1) == Some(t) {
        lemma_offset_reverse(s, t, 0, 1);
    } else if offset(s, -1, 1) == Some(t) {
        lemma_offset_reverse(s, t, -1, 1);
    } else if offset(s, -1, 0) == Some(t) {
        lemma_offset_reverse(s, t, -1, 0);
    } else if offset(s, -1, -1) == Some(t) {
        lemma_offset_reverse(s, t, -1, -1);
    } else if offset(s, 0, -1) == Some(t) {
        lemma_offset_reverse(s, t, 0, -1);
    } else {
        lemma_offset_reverse(s, t, 1, -1);
    }
}

/// A ray that reaches `(f1, r1)` across free squares reaches one step
/// further when `(f1, r1)` is free too.
proof fn lemma_ray_extend(f: int, r: int, df: int, dr: int, occ: u64, f1: int, r1: int, fuel: nat)
    requires
        on_board(f1, r1),
        on_board(f1 + df, r1 + dr),
        !bit(occ, (8 * r1 + f1) as u64),
        ray_from(f, r, df, dr, occ, 8 * r1 + f1, fuel),
    ensures
        ray_from(f, r, df, dr, occ, 8 * (r1 + dr) + f1 + df, fuel + 1),
    decreases fuel,
{
    let t2 = 8 * (r1 + dr) + f1 + df;
    if 8 * (r + dr) + f + df == t2 {
    } else if 8 * (r + dr) + f + df == 8 * r1 + f1 {
        lemma_square_coords(f + df, r + dr);
        lemma_square_coords(f1, r1);
        assert(f + df == f1 && r + dr == r1);
        assert(ray_from(f + df, r + dr, df, dr, occ, t2, fuel));
    } else {
        lemma_ray_extend(f + df, r + dr, df, dr, occ, f1, r1, (fuel - 1) as nat);
    }
}

/// A ray from `(f, r)` that reaches `t` gives a ray from `t` back to
/// `(f, r)` in the opposite direction, with the same reach.
proof fn lemma_ray_reverse(f: int, r: int, df: int, dr: int, occ: u64, t: int, fuel: nat)
    requires
        on_board(f, r),
        0 <= t < 64,
        ray_from(f, r, df, dr, occ, t, fuel),
    ensures
        ray_from(file_of(t), rank_of(t), -df, -dr, occ, 8 * r + f, fuel),
    decreases fuel,
{
    lemma_square_split(t);
    if 8 * (r + dr) + f + df == t {
        lemma_square_coords(f + df, r + dr);
        assert(file_of(t) - df == f && rank_of(t) - dr == r);
        assert(ray_from(file_of(t), rank_of(t), -df, -dr, occ, 8 * r + f, fuel));
    } else {
        lemma_ray_reverse(f + df, r + dr, df, dr, occ, t, (fuel - 1) as nat);
        lemma_ray_extend(file_of(t), rank_of(t), -df, -dr, occ, f + df, r + dr, (fuel - 1) as nat);
        assert(8 * (r + dr - dr) + f + df - df == 8 * r + f);
    }
}

/// A sliding attack along `(df, dr)` is an attack back along `(-df, -dr)`.
pub proof fn lemma_ray_attack_symmetric(s: int, df: int, dr: int, occ: u64, t: int)
    requires
        0 <= s < 64,
        0 <= t < 64,
        ray_attack(s, df, dr, occ, t),
    ensures
        ray_attack(t, -df, -dr, occ, s),
{
    lemma_square_split(s);
    lemma_ray_reverse(file_of(s), rank_of(s), df, dr, occ, t, 8);
}

/// Rook attacks are symmetric.
pub proof fn lemma_rook_symmetric(s: int, occ: u64, t: int)
    requires
        0 <= s < 64,
        0 <= t < 64,
        rook_attack(s, occ, t),
    ensures
        rook_attack(t, occ, s),
{
    if ray_attack(s, 1, 0, occ, t) {
        lemma_ray_attack_symmetric(s, 1, 0, occ, t);
    } else if ray_attack(s, -1, 0, occ, t) {
        lemma_ray_attack_symmetric(s, -1, 0, occ, t);
    } else if ray_attack(s, 0, 1, occ, t) {
        lemma_ray_attack_symmetric(s, 0, 1, occ, t);
    } else {
        lemma_ray_attack_symmetric(s, 0, -1, occ, t);
    }
}

/// Bishop attacks are symmetric.
pub proof fn lemma_bishop_symmetric(s: int, occ: u64, t: int)
    requires
        0 <= s < 64,
        0 <= t < 64,
        bishop_attack(s, occ, t),
    ensures
        bishop_attack(t, occ, s),
{
    if ray_attack(s, 1, 1, occ, t) {
        lemma_ray_attack_symmetric(s, 1, 1, occ, t);
    } else if ray_attack(s, -1, 1, occ, t) {
        lemma_ray_attack_symmetric(s, -1, 1, occ, t);
    } else if ray_attack(s, 1, -1, occ, t) {
        lemma_ray_attack_symmetric(s, 1, -1, occ, t);
    } else {
        lemma_ray_attack_symmetric(s, -1, -1, occ, t);
    }
}

/// Whatever a ray reaches lies strictly ahead of its start in each
/// coordinate the ray moves along.
proof fn lemma_ray_ahead(f: int, r: int, df: int, dr: int, occ: u64, t: int, fuel: nat)
    requires
        on_board(f, r),
        ray_from(f, r, df, dr, occ, t, fuel),
    ensures
        0 <= t < 64,
        df > 0 ==> file_of(t) > f,
        df < 0 ==> file_of(t) < f,
        dr > 0 ==> rank_of(t) > r,
        dr < 0 ==> rank_of(t) < r,
        df == 0 ==> file_of(t) == f,
        dr == 0 ==> rank_of(t) == r,
    decreases fuel,
{
    lemma_square_coords(f + df, r + dr);
    if 8 * (r + dr) + f + df != t {
        lemma_ray_ahead(f + df, r + dr, df, dr, occ, t, (fuel - 1) as nat);
    }
}

/// A sliding attack never lands on its own square.
pub proof fn lemma_ray_attack_leaves(s: int, df: int, dr: int, occ: u64, t: int)
    requires
        0 <= s < 64,
        df != 0 || dr != 0,
        ray_attack(s, df, dr, occ, t),
    ensures
        0 <= t < 64,
        t != s,
{
    lemma_square_split(s);
    lemma_ray_ahead(file_of(s), rank_of(s), df, dr, occ, t, 8);
}

/// A step by a non-zero offset lands on another square of the board.
pub proof fn lemma_offset_leaves(s: int, df: int, dr: int, t: int)
    requires
        0 <= s < 64,
        df != 0 || dr != 0,
        offset(s, df, dr) == Some(t),
    ensures
        0 <= t < 64,
        t != s,
{
    lemma_square_split(s);
    lemma_square_coords(file_of(s) + df, rank_of(s) + dr);
}

/// Knight jumps and king steps lead to another square of the board.
pub proof fn lemma_jump_leaves(s: int, t: int)
    requires
        0 <= s < 64,
        knight_attack(s, t) || king_attack(s, t),
    ensures
        0 <= t < 64,
        t != s,
{
    lemma_square_split(s);
    let f = file_of(s);
    let r = rank_of(s);
    assert forall|df: int, dr: int| (df != 0 || dr != 0) && offset(s, df, dr) == Some(t) implies 0 <= t < 64 && t != s by {
        lemma_offset_leaves(s, df, dr, t);
    }
}

/// Sliding attacks of rooks and bishops lead to another square.
pub proof fn lemma_slide_leaves(s: int, occ: u64, t: int)
    requires
        0 <= s < 64,
        rook_attack(s, occ, t) || bishop_attack(s, occ, t),
    ensures
        0 <= t < 64,
        t != s,
{
    assert forall|df: int, dr: int| (df != 0 || dr != 0) && ray_attack(s, df, dr, occ, t) implies 0 <= t < 64 && t != s by {
        lemma_ray_attack_leaves(s, df, dr, occ, t);
    }
}

/// Add the square at `(df, dr)` from `sq` to `bb` when it is on the board.
fn add_offset(bb: u64, sq: Square, df: i8, dr: i8) -> (r: u64)
    requires
        sq < 64,
        -8 <= df <= 8,
        -8 <= dr <= 8,
    ensures
        forall|t: u64|
            t < 64 ==> (#[trigger] bit(r, t) <==> (bit(bb, t) || offset(sq as int, df as int, dr as int)
                == Some(t as int))),
{
    let f: i8 = (sq % 8) as i8 + df;
    let rk: i8 = (sq / 8) as i8 + dr;
    if 0 <= f && f < 8 && 0 <= rk && rk < 8 {
        let k: u64 = (rk as u64) * 8 + (f as u64);
        let r = bb | (1u64 << k);
        proof {
            assert forall|t: u64| t < 64 implies (#[trigger] bit(r, t) <==> (bit(bb, t) || offset(
                sq as int,
                df as int,
                dr as int,
            ) == Some(t as int))) by {
                lemma_bit_ops(bb, 1u64 << k, t);
                lemma_square_mask(k, t);
            }
        }
        r
    } else {
        bb
    }
}

/// Squares a knight on `sq` attacks.
pub fn knight_attacks(sq: Square) -> (r: u64)
    requires
        sq < 64,
    ensures
        forall|t: u64| t < 64 ==> (#[trigger] bit(r, t) <==> knight_attack(sq as int, t as int)),
{
    let mut b: u64 = 0;
    proof {
        assert forall|t: u64| t < 64 implies !bit(b, t) by {
            lemma_bit_ops(b, b, t);
        }
    }
    b = add_offset(b, sq, 1, 2);
    b = add_offset(b, sq, 2, 1);
    b = add_offset(b, sq, 2, -1);
    b = add_offset(b, sq, 1, -2);
    b = add_offset(b, sq, -1, -2);
    b = add_offset(b, sq, -2, -1);
    b = add_offset(b, sq, -2, 1);
    b = add_offset(b, sq, -1, 2);
    b
}

/// Squares a king on `sq` attacks.
pub fn king_attacks(sq: Square) -> (r: u64)
    requires
        sq < 64,
    ensures
        forall|t: u64| t < 64 ==> (#[trigger] bit(r, t) <==> king_attack(sq as int, t as int)),
{
    let mut b: u64 = 0;
    proof {
        assert forall|t: u64| t < 64 implies !bit(b, t) by {
            lemma_bit_ops(b, b, t);
        }
    }
    b = add_offset(b, sq, 1, 0);
    b = add_offset(b, sq, 1, 1);
    b = add_offset(b, sq, 0, 1);
    b = add_offset(b, sq, -1, 1);
    b = add_offset(b, sq, -1, 0);
    b = add_offset(b, sq, -1, -1);
    b = add_offset(b, sq, 0, -1);
    b = add_offset(b, sq, 1, -1);
    b
}

/// Squares a pawn of side `color` on `sq` attacks.
pub fn pawn_attacks(color: Color, sq: Square) -> (r: u64)
    requires
        sq < 64,
    ensures
        forall|t: u64| t < 64 ==> (#[trigger] bit(r, t) <==> pawn_attack(color, sq as int, t as int)),
{
    let dir: i8 = match color {
        Color::Light => 1,
        Color::Dark => -1,
    };
    let mut b: u64 = 0;
    proof {
        assert forall|t: u64| t < 64 implies !bit(b, t) by {
            lemma_bit_ops(b, b, t);
        }
    }
    b = add_offset(b, sq, -1, dir);
    b = add_offset(b, sq, 1, dir);
    b
}

/// Squares reached along one direction from `sq`, up to and including the
/// first occupied square.
fn ray_attacks(sq: Square, occ: u64, df: i8, dr: i8) -> (r: u64)
    requires
        sq < 64,
        -1 <= df <= 1,
        -1 <= dr <= 1,
    ensures
        forall|t: u64|
            t < 64 ==> (#[trigger] bit(r, t) <==> ray_attack(sq as int, df as int, dr as int, occ, t as int)),
{
    let mut f: i8 = (sq % 8) as i8;
    let mut rk: i8 = (sq / 8) as i8;
    let mut fuel: u8 = 8;
    let mut acc: u64 = 0;
    proof {
        assert forall|t: u64| t < 64 implies !bit(acc, t) by {
            lemma_bit_ops(acc, acc, t);
        }
    }
    while fuel > 0
        invariant
            0 <= f < 8,
            0 <= rk < 8,
            -1 <= df <= 1,
            -1 <= dr <= 1,
            fuel <= 8,
            forall|t: u64|
                #![trigger ray_attack(sq as int, df as int, dr as int, occ, t as int)]
                t < 64 ==> ((bit(acc, t) || ray_from(f as int, rk as int, df as int, dr as int, occ, t as int, fuel as nat))
                    <==> ray_attack(sq as int, df as int, dr as int, occ, t as int)),
        decreases fuel,
    {
        let nf: i8 = f + df;
        let nr: i8 = rk + dr;
        if !(0 <= nf && nf < 8 && 0 <= nr && nr < 8) {
            proof {
                assert forall|t: u64| t < 64 implies !ray_from(f as int, rk as int, df as int, dr as int, occ, t as int, fuel as nat) by {
                }
            }
            return acc;
        }
        let k: u64 = (nr as u64) * 8 + (nf as u64);
        let ghost old_acc = acc;
        let ghost of = f as int;
        let ghost orank = rk as int;
        let ghost ofuel = fuel as nat;
        assert(k == 8 * (orank + dr) + of + df);
        acc = acc | (1u64 << k);
        proof {
            assert forall|t: u64| t < 64 implies (#[trigger] bit(acc, t) <==> (bit(old_acc, t) || t == k)) by {
                lemma_bit_ops(old_acc, 1u64 << k, t);
                lemma_square_mask(k, t);
            }
        }
        if (occ >> k) & 1 == 1 {
            proof {
                assert forall|t: u64| t < 64 implies (bit(acc, t) <==> ray_attack(sq as int, df as int, dr as int, occ, t as int)) by {
                    assert(bit(acc, t) <==> (bit(old_acc, t) || t == k));
                    assert(bit(occ, k));
                    assert(ray_from(of, orank, df as int, dr as int, occ, t as int, ofuel) == (t == k));
                    assert((bit(old_acc, t) || ray_from(of, orank, df as int, dr as int, occ, t as int, ofuel))
                        <==> ray_attack(sq as int, df as int, dr as int, occ, t as int));
                }
            }
            return acc;
        }
        f = nf;
        rk = nr;
        fuel = fuel - 1;
        proof {
            assert forall|t: u64| t < 64 implies ((bit(acc, t) || ray_from(f as int, rk as int, df as int, dr as int, occ, t as int, fuel as nat))
                    <==> ray_attack(sq as int, df as int, dr as int, occ, t as int)) by {
                assert(bit(acc, t) <==> (bit(old_acc, t) || t == k));
                assert(!bit(occ, k));
                assert(ray_from(of, orank, df as int, dr as int, occ, t as int, ofuel) == (t == k
                    || ray_from(f as int, rk as int, df as int, dr as int, occ, t as int, fuel as nat)));
                assert((bit(old_acc, t) || ray_from(of, orank, df as int, dr as int, occ, t as int, ofuel))
                    <==> ray_attack(sq as int, df as int, dr as int, occ, t as int));
            }
        }
    }
    proof {
        assert forall|t: u64| t < 64 implies (bit(acc, t) <==> ray_attack(sq as int, df as int, dr as int, occ, t as int)) by {
        }
    }
    acc
}

/// Or of two bitboards, bit by bit.
fn or_bits(a: u64, b: u64) -> (r: u64)
    ensures
        r == a | b,
        forall|t: u64| t < 64 ==> (#[trigger] bit(r, t) <==> (bit(a, t) || bit(b, t))),
{
    proof {
        assert forall|t: u64| t < 64 implies (#[trigger] bit(a | b, t) <==> (bit(a, t) || bit(b, t))) by {
            lemma_bit_ops(a, b, t);
        }
    }
    a | b
}

/// Squares a rook on `sq` attacks given occupancy `occ`.
pub fn rook_attacks(sq: Square, occ: u64) -> (r: u64)
    requires
        sq < 64,
    ensures
        forall|t: u64| t < 64 ==> (#[trigger] bit(r, t) <==> rook_attack(sq as int, occ, t as int)),
{
    let a = ray_attacks(sq, occ, 1, 0);
    let b = ray_attacks(sq, occ, -1, 0);
    let c = ray_attacks(sq, occ, 0, 1);
    let d = ray_attacks(sq, occ, 0, -1);
    or_bits(or_bits(a, b), or_bits(c, d))
}

/// Squares a bishop on `sq` attacks given occupancy `occ`.
pub fn bishop_attacks(sq: Square, occ: u64) -> (r: u64)
    requires
        sq < 64,
    ensures
        forall|t: u64| t < 64 ==> (#[trigger] bit(r, t) <==> bishop_attack(sq as int, occ, t as int)),
{
    let a = ray_attacks(sq, occ, 1, 1);
    let b = ray_attacks(sq, occ, -1, 1);
    let c = ray_attacks(sq, occ, 1, -1);
    let d = ray_attacks(sq, occ, -1, -1);
    or_bits(or_bits(a, b), or_bits(c, d))
}

/// Squares a queen on `sq` attacks given occupancy `occ`.
pub fn queen_attacks(sq: Square, occ: u64) -> (r: u64)
    requires
        sq < 64,
    ensures
        forall|t: u64| t < 64 ==> (#[trigger] bit(r, t) <==> queen_attack(sq as int, occ, t as int)),
{
    or_bits(rook_attacks(sq, occ), bishop_attacks(sq, occ))
}

} // verus!
