//! Zobrist hashing: fixed pseudo-random keys for (side, piece, square),
//! castling rights, en-passant file and side to move.

use vstd::prelude::*;
use crate::bits::bit;
use crate::chess_types::{Color, PieceKind, CastlingRights, Square, kind_of_index};
use crate::game_state::{GameState, GameStateView, in_pawn_key, upd_board};

verus! {

/// Seed of the key stream.
pub const ZOBRIST_SEED: u64 = 0x5EED_C0DE_2024_0001;

/// SplitMix64 finaliser: the key stream's mixing function.
pub open spec fn mix64(x: u64) -> u64 {
    let z1 = vstd::wrapping::u64_specs::wrapping_add(x, 0x9E37_79B9_7F4A_7C15u64);
    let z2 = vstd::wrapping::u64_specs::wrapping_mul(z1 ^ (z1 >> 30u64), 0xBF58_476D_1CE4_E5B9u64);
    let z3 = vstd::wrapping::u64_specs::wrapping_mul(z2 ^ (z2 >> 27u64), 0x94D0_49BB_1331_11EBu64);
    z3 ^ (z3 >> 31u64)
}

/// Key number `i` of the stream.
pub open spec fn key_at(i: u64) -> u64 {
    mix64(vstd::wrapping::u64_specs::wrapping_add(ZOBRIST_SEED, i))
}

/// Key of a piece of side `c`, kind `k` on square `sq`.
pub open spec fn psk(c: Color, k: PieceKind, sq: u64) -> u64 {
    key_at((c.idx() * 384 + k.idx() * 64 + sq) as u64)
}

/// Key of a castling-rights value.
pub open spec fn ck(r: u8) -> u64 {
    key_at((768 + r) as u64)
}

/// Key of an en-passant file.
pub open spec fn epk(f: u8) -> u64 {
    key_at((1024 + f) as u64)
}

/// Key toggled when the side to move changes.
pub open spec fn stmk() -> u64 {
    key_at(1300u64)
}

fn mix(x: u64) -> (r: u64)
    ensures
        r == mix64(x),
{
    let z1 = x.wrapping_add(0x9E37_79B9_7F4A_7C15u64);
    let z2 = (z1 ^ (z1 >> 30u64)).wrapping_mul(0xBF58_476D_1CE4_E5B9u64);
    let z3 = (z2 ^ (z2 >> 27u64)).wrapping_mul(0x94D0_49BB_1331_11EBu64);
    z3 ^ (z3 >> 31u64)
}

fn key(i: u64) -> (r: u64)
    ensures
        r == key_at(i),
{
    mix(ZOBRIST_SEED.wrapping_add(i))
}

pub fn piece_square_key(color: Color, piece: PieceKind, square: Square) -> (r: u64)
    ensures
        r == psk(color, piece, square as u64),
{
    key((color.index() as u64) * 384 + (piece.index() as u64) * 64 + square as u64)
}

pub fn castling_key(rights: CastlingRights) -> (r: u64)
    ensures
        r == ck(rights),
{
    key(768u64 + rights as u64)
}

pub fn en_passant_file_key(file: u8) -> (r: u64)
    ensures
        r == epk(file),
{
    key(1024u64 + file as u64)
}

pub fn side_to_move_key() -> (r: u64)
    ensures
        r == stmk(),
{
    key(1300u64)
}

/// XOR of the keys of the squares below `n` set in board `b` for side `c`,
/// kind `k`.
pub open spec fn board_key(c: Color, k: PieceKind, b: u64, n: nat) -> u64
    decreases n,
{
    if n == 0 {
        0
    } else {
        let rest = board_key(c, k, b, (n - 1) as nat);
        if bit(b, (n - 1) as u64) {
            rest ^ psk(c, k, (n - 1) as u64)
        } else {
            rest
        }
    }
}

/// XOR of the keys of all pieces on the boards `p` (only pawns and kings
/// when `pawn_structure_only`).
pub open spec fn pieces_key(p: [[u64; 6]; 2], pawn_structure_only: bool) -> u64 {
    let f = |c: Color, ki: int|
        if pawn_structure_only && !in_pawn_key(kind_of_index(ki).unwrap()) {
            0u64
        } else {
            board_key(c, kind_of_index(ki).unwrap(), p[c.idx() as int][ki], 64)
        };
    f(Color::Light, 0) ^ f(Color::Light, 1) ^ f(Color::Light, 2) ^ f(Color::Light, 3) ^ f(Color::Light, 4)
        ^ f(Color::Light, 5) ^ f(Color::Dark, 0) ^ f(Color::Dark, 1) ^ f(Color::Dark, 2) ^ f(Color::Dark, 3)
        ^ f(Color::Dark, 4) ^ f(Color::Dark, 5)
}

/// The Zobrist key of a position: its pieces, castling rights, en-passant
/// file, and the side key when Dark is to move.
pub open spec fn zobrist_of(v: GameStateView) -> u64 {
    let z1 = pieces_key(v.pieces, false) ^ ck(v.castling_rights);
    let z2 = match v.en_passant_square {
        Some(e) => z1 ^ epk(e % 8),
        None => z1,
    };
    if v.side_to_move == Color::Dark {
        z2 ^ stmk()
    } else {
        z2
    }
}

/// The pawn-structure key of a position: its pawns and kings.
pub open spec fn pawn_zobrist_of(v: GameStateView) -> u64 {
    pieces_key(v.pieces, true)
}

/// XOR of the keys of the squares set in board `b` of side `c`, kind `k`.
fn board_key_of(c: Color, k: PieceKind, b: u64) -> (r: u64)
    ensures
        r == board_key(c, k, b, 64),
{
    let mut acc: u64 = 0;
    let mut sq: u8 = 0;
    while sq < 64
        invariant
            sq <= 64,
            acc == board_key(c, k, b, sq as nat),
        decreases 64 - sq,
    {
        if (b >> (sq as u64)) & 1 == 1 {
            acc = acc ^ piece_square_key(c, k, sq);
        }
        sq = sq + 1;
    }
    acc
}

/// XOR of the keys of the pieces on boards `p` (pawns and kings only when
/// `pawn_structure_only`).
fn pieces_key_of(p: &[[u64; 6]; 2], pawn_structure_only: bool) -> (r: u64)
    ensures
        r == pieces_key(*p, pawn_structure_only),
{
    let kinds = [
        PieceKind::Pawn,
        PieceKind::Knight,
        PieceKind::Bishop,
        PieceKind::Rook,
        PieceKind::Queen,
        PieceKind::King,
    ];
    let mut parts: [u64; 12] = [0u64, 0, 0, 0, 0, 0, 0, 0, 0, 0, 0, 0];
    let mut i: usize = 0;
    while i < 12
        invariant
            i <= 12,
            forall|q: int| 0 <= q < 6 ==> #[trigger] kinds[q] == kind_of_index(q).unwrap(),
            forall|j: int|
                0 <= j < i ==> #[trigger] parts[j] == {
                    let c = if j < 6 { Color::Light } else { Color::Dark };
                    let ki = j % 6;
                    if pawn_structure_only && !in_pawn_key(kind_of_index(ki).unwrap()) {
                        0u64
                    } else {
                        board_key(c, kind_of_index(ki).unwrap(), p[c.idx() as int][ki], 64)
                    }
                },
        decreases 12 - i,
    {
        let c = if i < 6 { Color::Light } else { Color::Dark };
        let k = kinds[i % 6];
        let keep = !pawn_structure_only || k == PieceKind::Pawn || k == PieceKind::King;
        let v = if keep {
            board_key_of(c, k, p[c.index()][k.index()])
        } else {
            0
        };
        parts[i] = v;
        i = i + 1;
    }
    parts[0] ^ parts[1] ^ parts[2] ^ parts[3] ^ parts[4] ^ parts[5] ^ parts[6] ^ parts[7] ^ parts[8]
        ^ parts[9] ^ parts[10] ^ parts[11]
}

/// The Zobrist key of the position, computed from scratch.
pub fn compute_zobrist_key(game_state: &GameState) -> (r: u64)
    ensures
        r == zobrist_of(game_state@),
{
    let mut z = pieces_key_of(&game_state.pieces, false) ^ castling_key(game_state.castling_rights);
    if let Some(e) = game_state.en_passant_square {
        z = z ^ en_passant_file_key(e % 8);
    }
    if let Color::Dark = game_state.side_to_move {
        z = z ^ side_to_move_key();
    }
    z
}

/// The pawn-structure key of the position, computed from scratch.
pub fn compute_pawn_zobrist_key(game_state: &GameState) -> (r: u64)
    ensures
        r == pawn_zobrist_of(game_state@),
{
    pieces_key_of(&game_state.pieces, true)
}


/// XOR identities used when keys are toggled.
pub proof fn lemma_xor_facts(a: u64, b: u64, c: u64)
    by (bit_vector)
    ensures
        (a ^ b) ^ b == a,
        (a ^ b) ^ c == (a ^ c) ^ b,
        (a ^ b) ^ c == a ^ (b ^ c),
        a ^ b == b ^ a,
        a ^ 0 == a,
        a ^ a == 0,
{
}

/// Clearing a set square of a board toggles that square's key out of the
/// board's key.
proof fn lemma_board_key_clear(c: Color, k: PieceKind, b: u64, s: u64, n: nat)
    requires
        s < 64,
        bit(b, s),
        n <= 64,
    ensures
        board_key(c, k, b & !(1u64 << s), n) == if s < n {
            board_key(c, k, b, n) ^ psk(c, k, s)
        } else {
            board_key(c, k, b, n)
        },
    decreases n,
{
    if n > 0 {
        let j = (n - 1) as u64;
        lemma_board_key_clear(c, k, b, s, (n - 1) as nat);
        crate::bits::lemma_mask_ops(b, s, j);
        let old_rest = board_key(c, k, b, (n - 1) as nat);
        lemma_xor_facts(old_rest, psk(c, k, s), psk(c, k, j));
        lemma_xor_facts(old_rest, psk(c, k, j), psk(c, k, s));
    }
}

/// Setting a clear square of a board toggles that square's key into the
/// board's key.
proof fn lemma_board_key_set(c: Color, k: PieceKind, b: u64, s: u64, n: nat)
    requires
        s < 64,
        !bit(b, s),
        n <= 64,
    ensures
        board_key(c, k, b | (1u64 << s), n) == if s < n {
            board_key(c, k, b, n) ^ psk(c, k, s)
        } else {
            board_key(c, k, b, n)
        },
    decreases n,
{
    if n > 0 {
        let j = (n - 1) as u64;
        lemma_board_key_set(c, k, b, s, (n - 1) as nat);
        crate::bits::lemma_mask_ops(b, s, j);
        let old_rest = board_key(c, k, b, (n - 1) as nat);
        lemma_xor_facts(old_rest, psk(c, k, s), psk(c, k, j));
        lemma_xor_facts(old_rest, psk(c, k, j), psk(c, k, s));
    }
}

/// Replacing term `j` of a twelve-term XOR by `y`.
proof fn lemma_xor12_replace(
    f0: u64, f1: u64, f2: u64, f3: u64, f4: u64, f5: u64,
    f6: u64, f7: u64, f8: u64, f9: u64, f10: u64, f11: u64,
    y: u64,
    j: u64,
)
    by (bit_vector)
    requires
        j < 12,
    ensures
        (if j == 0 { y } else { f0 }) ^ (if j == 1 { y } else { f1 }) ^ (if j == 2 { y } else { f2 })
            ^ (if j == 3 { y } else { f3 }) ^ (if j == 4 { y } else { f4 }) ^ (if j == 5 { y } else { f5 })
            ^ (if j == 6 { y } else { f6 }) ^ (if j == 7 { y } else { f7 }) ^ (if j == 8 { y } else { f8 })
            ^ (if j == 9 { y } else { f9 }) ^ (if j == 10 { y } else { f10 }) ^ (if j == 11 { y } else { f11 })
            == (f0 ^ f1 ^ f2 ^ f3 ^ f4 ^ f5 ^ f6 ^ f7 ^ f8 ^ f9 ^ f10 ^ f11) ^ (if j == 0 { f0 } else if j
            == 1 { f1 } else if j == 2 { f2 } else if j == 3 { f3 } else if j == 4 { f4 } else if j == 5 {
            f5 } else if j == 6 { f6 } else if j == 7 { f7 } else if j == 8 { f8 } else if j == 9 { f9 }
            else if j == 10 { f10 } else { f11 }) ^ y,
{
}

/// The term of board `(c, k)` in `pieces_key`.
pub open spec fn key_term(p: [[u64; 6]; 2], c: Color, k: PieceKind, pawn_structure_only: bool) -> u64 {
    if pawn_structure_only && !in_pawn_key(k) {
        0u64
    } else {
        board_key(c, k, p[c.idx() as int][k.idx() as int], 64)
    }
}

/// Replacing one board changes the key by the XOR of its old and new terms.
proof fn lemma_pieces_key_upd(p: [[u64; 6]; 2], c: Color, k: PieceKind, x: u64, ps: bool)
    ensures
        pieces_key(upd_board(p, c.idx() as int, k.idx() as int, x), ps) == pieces_key(p, ps) ^ key_term(
            p,
            c,
            k,
            ps,
        ) ^ key_term(upd_board(p, c.idx() as int, k.idx() as int, x), c, k, ps),
{
    let q = upd_board(p, c.idx() as int, k.idx() as int, x);
    crate::game_state::lemma_upd_board(p, c.idx() as int, k.idx() as int, x);
    crate::chess_types::lemma_kind_index_roundtrip(k);
    let y = key_term(q, c, k, ps);
    let j = (c.idx() * 6 + k.idx()) as u64;
    let t0 = key_term(p, Color::Light, PieceKind::Pawn, ps);
    let t1 = key_term(p, Color::Light, PieceKind::Knight, ps);
    let t2 = key_term(p, Color::Light, PieceKind::Bishop, ps);
    let t3 = key_term(p, Color::Light, PieceKind::Rook, ps);
    let t4 = key_term(p, Color::Light, PieceKind::Queen, ps);
    let t5 = key_term(p, Color::Light, PieceKind::King, ps);
    let t6 = key_term(p, Color::Dark, PieceKind::Pawn, ps);
    let t7 = key_term(p, Color::Dark, PieceKind::Knight, ps);
    let t8 = key_term(p, Color::Dark, PieceKind::Bishop, ps);
    let t9 = key_term(p, Color::Dark, PieceKind::Rook, ps);
    let t10 = key_term(p, Color::Dark, PieceKind::Queen, ps);
    let t11 = key_term(p, Color::Dark, PieceKind::King, ps);
    assert(pieces_key(p, ps) == t0 ^ t1 ^ t2 ^ t3 ^ t4 ^ t5 ^ t6 ^ t7 ^ t8 ^ t9 ^ t10 ^ t11);
    assert(pieces_key(q, ps) == (if j == 0 { y } else { t0 }) ^ (if j == 1 { y } else { t1 }) ^ (if j == 2 { y } else { t2 })
            ^ (if j == 3 { y } else { t3 }) ^ (if j == 4 { y } else { t4 }) ^ (if j == 5 { y } else { t5 })
            ^ (if j == 6 { y } else { t6 }) ^ (if j == 7 { y } else { t7 }) ^ (if j == 8 { y } else { t8 })
            ^ (if j == 9 { y } else { t9 }) ^ (if j == 10 { y } else { t10 }) ^ (if j == 11 { y } else { t11 }));
    lemma_xor12_replace(t0, t1, t2, t3, t4, t5, t6, t7, t8, t9, t10, t11, y, j);
}

/// The keys of a view are in step with its pieces, up to the part `rest`
/// that does not depend on pieces.
pub open spec fn keys_track(w: GameStateView, rest: u64) -> bool {
    &&& w.zobrist_key == pieces_key(w.pieces, false) ^ rest
    &&& w.pawn_zobrist_key == pieces_key(w.pieces, true)
}

/// Removing a piece that is there keeps the keys in step.
pub proof fn lemma_removed_keys(w: GameStateView, c: Color, k: PieceKind, s: u64, rest: u64)
    requires
        s < 64,
        w.has(c, k, s),
        keys_track(w, rest),
    ensures
        keys_track(w.removed(c, k, s), rest),
{
    let b = w.pieces[c.idx() as int][k.idx() as int];
    let x = b & !(1u64 << s);
    let q = upd_board(w.pieces, c.idx() as int, k.idx() as int, x);
    crate::game_state::lemma_upd_board(w.pieces, c.idx() as int, k.idx() as int, x);
    lemma_board_key_clear(c, k, b, s, 64);
    lemma_pieces_key_upd(w.pieces, c, k, x, false);
    lemma_pieces_key_upd(w.pieces, c, k, x, true);
    let d = psk(c, k, s);
    let pk = pieces_key(w.pieces, false);
    let bk = board_key(c, k, b, 64);
    lemma_xor_facts(bk, d, bk);
    lemma_xor_facts(pk ^ bk, bk ^ d, 0);
    lemma_xor_facts(pk, bk, bk ^ d);
    lemma_xor_facts(bk, bk, d);
    lemma_xor_facts(0, d, 0);
    lemma_xor_facts(d, 0, 0);
    lemma_xor_facts(pk, rest, d);
    let pp = pieces_key(w.pieces, true);
    lemma_xor_facts(pp, bk, bk ^ d);
    lemma_xor_facts(pp, 0, 0);
}

/// Adding a piece where there is none of that kind keeps the keys in step.
pub proof fn lemma_added_keys(w: GameStateView, c: Color, k: PieceKind, s: u64, rest: u64)
    requires
        s < 64,
        !w.has(c, k, s),
        keys_track(w, rest),
    ensures
        keys_track(w.added(c, k, s), rest),
{
    let b = w.pieces[c.idx() as int][k.idx() as int];
    let x = b | (1u64 << s);
    let q = upd_board(w.pieces, c.idx() as int, k.idx() as int, x);
    crate::game_state::lemma_upd_board(w.pieces, c.idx() as int, k.idx() as int, x);
    lemma_board_key_set(c, k, b, s, 64);
    lemma_pieces_key_upd(w.pieces, c, k, x, false);
    lemma_pieces_key_upd(w.pieces, c, k, x, true);
    let d = psk(c, k, s);
    let pk = pieces_key(w.pieces, false);
    let bk = board_key(c, k, b, 64);
    lemma_xor_facts(bk, d, bk);
    lemma_xor_facts(pk, bk, bk ^ d);
    lemma_xor_facts(bk, bk, d);
    lemma_xor_facts(0, d, 0);
    lemma_xor_facts(d, 0, 0);
    lemma_xor_facts(pk, rest, d);
    let pp = pieces_key(w.pieces, true);
    lemma_xor_facts(pp, bk, bk ^ d);
    lemma_xor_facts(pp, 0, 0);
}

} // verus!
