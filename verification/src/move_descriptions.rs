//! Packed move descriptions: a `u64` holding the from and to squares, the
//! moving, captured and promotion piece codes, and the special-move flags.
//!
//! Layout: bits 0..6 from, 6..12 to, 12..15 moved piece, 15..18 captured
//! piece, 18..21 promotion piece, then one bit per flag.

use vstd::prelude::*;
use crate::chess_types::{PieceKind, Square, kind_of_index};

verus! {

/// Code of "no piece" in the captured and promotion fields.
pub const NO_PIECE_CODE: u64 = 7;

pub const FLAG_CAPTURE: u64 = 0x20_0000;

pub const FLAG_DOUBLE_PAWN_PUSH: u64 = 0x40_0000;

pub const FLAG_EN_PASSANT: u64 = 0x80_0000;

pub const FLAG_CASTLING: u64 = 0x100_0000;

/// Origin square of a packed move.
pub open spec fn mv_from(m: u64) -> u64 {
    m & 63
}

/// Destination square of a packed move.
pub open spec fn mv_to(m: u64) -> u64 {
    (m >> 6) & 63
}

/// Moving-piece code of a packed move.
pub open spec fn mv_moved(m: u64) -> u64 {
    (m >> 12) & 7
}

/// Captured-piece code of a packed move.
pub open spec fn mv_captured(m: u64) -> u64 {
    (m >> 15) & 7
}

/// Promotion-piece code of a packed move.
pub open spec fn mv_promo(m: u64) -> u64 {
    (m >> 18) & 7
}

/// Whether a packed move carries flag `f`.
pub open spec fn has_flag(m: u64, f: u64) -> bool {
    m & f != 0
}

/// Code of an optional piece kind.
pub open spec fn code_of(p: Option<PieceKind>) -> u64 {
    match p {
        Some(k) => k.idx() as u64,
        None => 7,
    }
}

/// The packed form of a move.
pub open spec fn packed(
    from: u64,
    to: u64,
    moved: u64,
    captured: u64,
    promo: u64,
    flags: u64,
) -> u64 {
    from | (to << 6u64) | (moved << 12u64) | (captured << 15u64) | (promo << 18u64) | flags
}

/// Fields read back from a packed move are the ones packed, and a flag is
/// set exactly when it was passed.
pub proof fn lemma_pack_unpack(
    from: u64,
    to: u64,
    moved: u64,
    captured: u64,
    promo: u64,
    flags: u64,
)
    by (bit_vector)
    requires
        from < 64,
        to < 64,
        moved < 8,
        captured < 8,
        promo < 8,
        flags & 0x1f_ffffu64 == 0,
    ensures
        packed(from, to, moved, captured, promo, flags) & 63 == from,
        (packed(from, to, moved, captured, promo, flags) >> 6) & 63 == to,
        (packed(from, to, moved, captured, promo, flags) >> 12) & 7 == moved,
        (packed(from, to, moved, captured, promo, flags) >> 15) & 7 == captured,
        (packed(from, to, moved, captured, promo, flags) >> 18) & 7 == promo,
        packed(from, to, moved, captured, promo, flags) & 0x20_0000u64 == flags & 0x20_0000u64,
        packed(from, to, moved, captured, promo, flags) & 0x40_0000u64 == flags & 0x40_0000u64,
        packed(from, to, moved, captured, promo, flags) & 0x80_0000u64 == flags & 0x80_0000u64,
        packed(from, to, moved, captured, promo, flags) & 0x100_0000u64 == flags & 0x100_0000u64,
{
}

/// Field extraction bounds.
pub proof fn lemma_field_bounds(m: u64)
    by (bit_vector)
    ensures
        m & 63 < 64,
        (m >> 6) & 63 < 64,
        (m >> 12) & 7 < 8,
        (m >> 15) & 7 < 8,
        (m >> 18) & 7 < 8,
{
}

pub fn pack_move_description(
    from: Square,
    to: Square,
    moved_piece: PieceKind,
    captured_piece: Option<PieceKind>,
    promotion_piece: Option<PieceKind>,
    flags: u64,
) -> (r: u64)
    requires
        from < 64,
        to < 64,
    ensures
        r == packed(
            from as u64,
            to as u64,
            moved_piece.idx() as u64,
            code_of(captured_piece),
            code_of(promotion_piece),
            flags,
        ),
{
    let moved = moved_piece.index() as u64;
    let captured = piece_code(captured_piece);
    let promo = piece_code(promotion_piece);
    (from as u64) | ((to as u64) << 6u64) | (moved << 12u64) | (captured << 15u64) | (promo
        << 18u64) | flags
}

/// Code of an optional piece kind (`NO_PIECE_CODE` for none).
pub fn piece_code(p: Option<PieceKind>) -> (r: u64)
    ensures
        r == code_of(p),
        r < 8,
{
    match p {
        Some(k) => k.index() as u64,
        None => NO_PIECE_CODE,
    }
}

pub fn move_from(m: u64) -> (r: Square)
    ensures
        r == mv_from(m),
        r < 64,
{
    proof {
        lemma_field_bounds(m);
    }
    (m & 63) as Square
}

pub fn move_to(m: u64) -> (r: Square)
    ensures
        r == mv_to(m),
        r < 64,
{
    proof {
        lemma_field_bounds(m);
    }
    ((m >> 6) & 63) as Square
}

pub fn move_moved_piece_code(m: u64) -> (r: u64)
    ensures
        r == mv_moved(m),
        r < 8,
{
    proof {
        lemma_field_bounds(m);
    }
    (m >> 12) & 7
}

pub fn move_captured_piece_code(m: u64) -> (r: u64)
    ensures
        r == mv_captured(m),
        r < 8,
{
    proof {
        lemma_field_bounds(m);
    }
    (m >> 15) & 7
}

pub fn move_promotion_piece_code(m: u64) -> (r: u64)
    ensures
        r == mv_promo(m),
        r < 8,
{
    proof {
        lemma_field_bounds(m);
    }
    (m >> 18) & 7
}

/// The piece kind with a given code, if it names one.
pub fn piece_kind_from_code(code: u64) -> (r: Option<PieceKind>)
    ensures
        r == kind_of_index(code as int),
{
    if code == 0 {
        Some(PieceKind::Pawn)
    } else if code == 1 {
        Some(PieceKind::Knight)
    } else if code == 2 {
        Some(PieceKind::Bishop)
    } else if code == 3 {
        Some(PieceKind::Rook)
    } else if code == 4 {
        Some(PieceKind::Queen)
    } else if code == 5 {
        Some(PieceKind::King)
    } else {
        None
    }
}

/// A move stored as a `u32` (as the undo record does) reads back the same
/// fields and flags.
pub proof fn lemma_move_as_u32(m: u64)
    by (bit_vector)
    ensures
        ((m as u32) as u64) & 63 == m & 63,
        (((m as u32) as u64) >> 6) & 63 == (m >> 6) & 63,
        (((m as u32) as u64) >> 12) & 7 == (m >> 12) & 7,
        (((m as u32) as u64) >> 15) & 7 == (m >> 15) & 7,
        (((m as u32) as u64) >> 18) & 7 == (m >> 18) & 7,
        ((m as u32) as u64) & 0x20_0000u64 == m & 0x20_0000u64,
        ((m as u32) as u64) & 0x40_0000u64 == m & 0x40_0000u64,
        ((m as u32) as u64) & 0x80_0000u64 == m & 0x80_0000u64,
        ((m as u32) as u64) & 0x100_0000u64 == m & 0x100_0000u64,
{
}

} // verus!
