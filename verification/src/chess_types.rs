//! Core chess vocabulary: sides, piece kinds, castling-right bits, squares.

use vstd::prelude::*;

verus! {

/// Side to move.
#[derive(Debug, Clone, Copy, PartialEq, Eq, Structural)]
pub enum Color {
    Light,
    Dark,
}

impl Color {
    /// Array index of this side: Light is 0, Dark is 1.
    pub open spec fn idx(self) -> nat {
        match self {
            Color::Light => 0,
            Color::Dark => 1,
        }
    }

    /// The other side.
    pub open spec fn other(self) -> Color {
        match self {
            Color::Light => Color::Dark,
            Color::Dark => Color::Light,
        }
    }

    pub fn index(self) -> (r: usize)
        ensures
            r == self.idx(),
            r < 2,
    {
        match self {
            Color::Light => 0,
            Color::Dark => 1,
        }
    }

    pub fn opposite(self) -> (r: Self)
        ensures
            r == self.other(),
    {
        match self {
            Color::Light => Color::Dark,
            Color::Dark => Color::Light,
        }
    }
}

/// Taking the opposite side twice gives back the side, and a side is never
/// its own opposite; the two sides have distinct indices.
pub proof fn lemma_opposite_involution(c: Color)
    ensures
        c.other().other() == c,
        c.other() != c,
        c.other().idx() != c.idx(),
        c.idx() + c.other().idx() == 1,
{
}

/// Piece kind (color is represented separately).
#[derive(Debug, Clone, Copy, PartialEq, Eq, Structural)]
pub enum PieceKind {
    Pawn,
    Knight,
    Bishop,
    Rook,
    Queen,
    King,
}

impl PieceKind {
    /// Array index / move code of this kind: Pawn 0, Knight 1, Bishop 2,
    /// Rook 3, Queen 4, King 5.
    pub open spec fn idx(self) -> nat {
        match self {
            PieceKind::Pawn => 0,
            PieceKind::Knight => 1,
            PieceKind::Bishop => 2,
            PieceKind::Rook => 3,
            PieceKind::Queen => 4,
            PieceKind::King => 5,
        }
    }

    pub fn index(self) -> (r: usize)
        ensures
            r == self.idx(),
            r < 6,
    {
        match self {
            PieceKind::Pawn => 0,
            PieceKind::Knight => 1,
            PieceKind::Bishop => 2,
            PieceKind::Rook => 3,
            PieceKind::Queen => 4,
            PieceKind::King => 5,
        }
    }
}

/// The kind with a given index, if the index is below 6.
pub open spec fn kind_of_index(i: int) -> Option<PieceKind> {
    if i == 0 {
        Some(PieceKind::Pawn)
    } else if i == 1 {
        Some(PieceKind::Knight)
    } else if i == 2 {
        Some(PieceKind::Bishop)
    } else if i == 3 {
        Some(PieceKind::Rook)
    } else if i == 4 {
        Some(PieceKind::Queen)
    } else if i == 5 {
        Some(PieceKind::King)
    } else {
        None
    }
}

/// Index and kind are inverse to each other.
pub proof fn lemma_kind_index_roundtrip(k: PieceKind)
    ensures
        kind_of_index(k.idx() as int) == Some(k),
        k.idx() < 6,
{
}

/// Packed move type.
pub type Move = u32;

/// Compact castling rights bitmask.
pub type CastlingRights = u8;

pub const CASTLE_LIGHT_KINGSIDE: CastlingRights = 1;

pub const CASTLE_LIGHT_QUEENSIDE: CastlingRights = 2;

pub const CASTLE_DARK_KINGSIDE: CastlingRights = 4;

pub const CASTLE_DARK_QUEENSIDE: CastlingRights = 8;

/// Board square index (`0..=63`, rank-major: a1 = 0, h1 = 7, a8 = 56).
pub type Square = u8;

} // verus!
