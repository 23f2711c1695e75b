//! Incremental bitboard game state and its mathematical view.
//!
//! `GameState` holds one bitboard per (side, piece kind), occupancy caches,
//! side/castling/en-passant flags, clocks, Zobrist keys, the repetition
//! history and the make/unmake stack.

use vstd::prelude::*;
use crate::bits::bit;
use crate::chess_types::{Color, PieceKind, Move, CastlingRights, Square};
use crate::zobrist::psk;

verus! {

broadcast use vstd::array::group_array_axioms;

/// The two move clocks of a position.
#[derive(Clone, Debug)]
pub struct MoveCounters {
    /// The half-move clock (for the fifty-move rule).
    pub half_move_clock: u16,
    /// The full-move count (increments after Dark's move).
    pub full_move_count: u16,
}

/// Single undo record for make/unmake.
#[derive(Clone, Copy, Debug)]
pub struct UndoState {
    pub mv: Move,
    pub moved_piece: PieceKind,
    pub captured_piece: Option<PieceKind>,
    pub prev_pieces: [[u64; 6]; 2],
    pub prev_occupancy_by_color: [u64; 2],
    pub prev_occupancy_all: u64,
    pub prev_side_to_move: Color,
    pub prev_castling_rights: CastlingRights,
    pub prev_en_passant_square: Option<Square>,
    pub prev_halfmove_clock: u16,
    pub prev_fullmove_number: u16,
    pub prev_ply: u16,
    pub prev_repetition_len: usize,
    pub prev_zobrist_key: u64,
    pub prev_pawn_zobrist_key: u64,
}

/// Incremental game state optimized for fast move making/unmaking.
#[derive(Debug)]
pub struct GameState {
    /// Bitboards indexed `[color][piece_kind]`.
    pub pieces: [[u64; 6]; 2],
    pub occupancy_by_color: [u64; 2],
    pub occupancy_all: u64,
    pub side_to_move: Color,
    pub castling_rights: CastlingRights,
    pub en_passant_square: Option<Square>,
    pub halfmove_clock: u16,
    pub fullmove_number: u16,
    pub zobrist_key: u64,
    pub pawn_zobrist_key: u64,
    pub ply: u16,
    pub repetition_history: Vec<u64>,
    pub undo_stack: Vec<UndoState>,
}

/// The mathematical view of a `GameState`: its fields, with the two stacks
/// as sequences.
#[verifier::ext_equal]
pub struct GameStateView {
    pub pieces: [[u64; 6]; 2],
    pub occupancy_by_color: [u64; 2],
    pub occupancy_all: u64,
    pub side_to_move: Color,
    pub castling_rights: CastlingRights,
    pub en_passant_square: Option<Square>,
    pub halfmove_clock: u16,
    pub fullmove_number: u16,
    pub zobrist_key: u64,
    pub pawn_zobrist_key: u64,
    pub ply: u16,
    pub repetition_history: Seq<u64>,
    pub undo_stack: Seq<UndoState>,
}

impl View for GameState {
    type V = GameStateView;

    open spec fn view(&self) -> GameStateView {
        GameStateView {
            pieces: self.pieces,
            occupancy_by_color: self.occupancy_by_color,
            occupancy_all: self.occupancy_all,
            side_to_move: self.side_to_move,
            castling_rights: self.castling_rights,
            en_passant_square: self.en_passant_square,
            halfmove_clock: self.halfmove_clock,
            fullmove_number: self.fullmove_number,
            zobrist_key: self.zobrist_key,
            pawn_zobrist_key: self.pawn_zobrist_key,
            ply: self.ply,
            repetition_history: self.repetition_history@,
            undo_stack: self.undo_stack@,
        }
    }
}

/// `a` with entry `k` replaced by `x`.
pub open spec fn upd6(a: [u64; 6], k: int, x: u64) -> [u64; 6] {
    [
        if k == 0 { x } else { a[0] },
        if k == 1 { x } else { a[1] },
        if k == 2 { x } else { a[2] },
        if k == 3 { x } else { a[3] },
        if k == 4 { x } else { a[4] },
        if k == 5 { x } else { a[5] },
    ]
}

/// `a` with entry `c` replaced by `x`.
#[verifier::opaque]
pub open spec fn upd2(a: [u64; 2], c: int, x: u64) -> [u64; 2] {
    [if c == 0 { x } else { a[0] }, if c == 1 { x } else { a[1] }]
}

/// `p` with board `[c][k]` replaced by `x`.
#[verifier::opaque]
pub open spec fn upd_board(p: [[u64; 6]; 2], c: int, k: int, x: u64) -> [[u64; 6]; 2] {
    [
        if c == 0 { upd6(p[0], k, x) } else { p[0] },
        if c == 1 { upd6(p[1], k, x) } else { p[1] },
    ]
}

/// Whether a piece kind also enters the pawn-structure key.
pub open spec fn in_pawn_key(k: PieceKind) -> bool {
    k == PieceKind::Pawn || k == PieceKind::King
}

impl GameStateView {
    /// Side `c` has a piece of kind `k` on `sq`.
    pub open spec fn has(self, c: Color, k: PieceKind, sq: u64) -> bool {
        bit(self.pieces[c.idx() as int][k.idx() as int], sq)
    }

    /// The first kind (in kind order) that side `c` has on `sq`.
    pub open spec fn kind_at(self, c: Color, sq: u64) -> Option<PieceKind> {
        if self.has(c, PieceKind::Pawn, sq) {
            Some(PieceKind::Pawn)
        } else if self.has(c, PieceKind::Knight, sq) {
            Some(PieceKind::Knight)
        } else if self.has(c, PieceKind::Bishop, sq) {
            Some(PieceKind::Bishop)
        } else if self.has(c, PieceKind::Rook, sq) {
            Some(PieceKind::Rook)
        } else if self.has(c, PieceKind::Queen, sq) {
            Some(PieceKind::Queen)
        } else if self.has(c, PieceKind::King, sq) {
            Some(PieceKind::King)
        } else {
            None
        }
    }

    /// The piece on `sq`, looking at Light's boards first.
    pub open spec fn occupant(self, sq: u64) -> Option<(Color, PieceKind)> {
        match self.kind_at(Color::Light, sq) {
            Some(k) => Some((Color::Light, k)),
            None => match self.kind_at(Color::Dark, sq) {
                Some(k) => Some((Color::Dark, k)),
                None => None,
            },
        }
    }

    /// Well-formedness: no square holds two pieces, the occupancy caches are
    /// the unions of the piece boards, and the en-passant square is on the
    /// board.
    pub open spec fn wf(self) -> bool {
        &&& forall|sq: u64, c1: Color, k1: PieceKind, c2: Color, k2: PieceKind|
            sq < 64 && #[trigger] self.has(c1, k1, sq) && #[trigger] self.has(c2, k2, sq) ==> c1
                == c2 && k1 == k2
        &&& forall|sq: u64, c: Color|
            sq < 64 ==> (#[trigger] bit(self.occupancy_by_color[c.idx() as int], sq) <==> self.kind_at(
                c,
                sq,
            ) is Some)
        &&& forall|sq: u64|
            sq < 64 ==> (#[trigger] bit(self.occupancy_all, sq) <==> (bit(
                self.occupancy_by_color[0],
                sq,
            ) || bit(self.occupancy_by_color[1], sq)))
        &&& self.en_passant_square matches Some(ep) ==> ep < 64
    }

    /// The view after `remove_piece(c, k, sq)`: the square is cleared from
    /// the piece board and the side's occupancy, and the piece key toggled.
    pub open spec fn removed(self, c: Color, k: PieceKind, sq: u64) -> GameStateView {
        GameStateView {
            pieces: upd_board(
                self.pieces,
                c.idx() as int,
                k.idx() as int,
                self.pieces[c.idx() as int][k.idx() as int] & !(1u64 << sq),
            ),
            occupancy_by_color: upd2(
                self.occupancy_by_color,
                c.idx() as int,
                self.occupancy_by_color[c.idx() as int] & !(1u64 << sq),
            ),
            zobrist_key: self.zobrist_key ^ psk(c, k, sq),
            pawn_zobrist_key: if in_pawn_key(k) {
                self.pawn_zobrist_key ^ psk(c, k, sq)
            } else {
                self.pawn_zobrist_key
            },
            ..self
        }
    }

    /// The view after `add_piece(c, k, sq)`: the square is set on the piece
    /// board and the side's occupancy, and the piece key toggled.
    pub open spec fn added(self, c: Color, k: PieceKind, sq: u64) -> GameStateView {
        GameStateView {
            pieces: upd_board(
                self.pieces,
                c.idx() as int,
                k.idx() as int,
                self.pieces[c.idx() as int][k.idx() as int] | (1u64 << sq),
            ),
            occupancy_by_color: upd2(
                self.occupancy_by_color,
                c.idx() as int,
                self.occupancy_by_color[c.idx() as int] | (1u64 << sq),
            ),
            zobrist_key: self.zobrist_key ^ psk(c, k, sq),
            pawn_zobrist_key: if in_pawn_key(k) {
                self.pawn_zobrist_key ^ psk(c, k, sq)
            } else {
                self.pawn_zobrist_key
            },
            ..self
        }
    }
}

/// The view of a fresh, empty board (Light to move, move 1).
pub open spec fn empty_view() -> GameStateView {
    GameStateView {
        pieces: [[0u64, 0, 0, 0, 0, 0], [0u64, 0, 0, 0, 0, 0]],
        occupancy_by_color: [0u64, 0],
        occupancy_all: 0,
        side_to_move: Color::Light,
        castling_rights: 0,
        en_passant_square: None,
        halfmove_clock: 0,
        fullmove_number: 1,
        zobrist_key: 0,
        pawn_zobrist_key: 0,
        ply: 0,
        repetition_history: Seq::empty(),
        undo_stack: Seq::empty(),
    }
}

impl Clone for GameState {
    fn clone(&self) -> (r: Self)
        ensures
            r@ == self@,
    {
        let rh = self.repetition_history.clone();
        let us = self.undo_stack.clone();
        proof {
            assert(rh@ =~= self.repetition_history@);
            assert(us@ =~= self.undo_stack@);
        }
        GameState {
            pieces: self.pieces,
            occupancy_by_color: self.occupancy_by_color,
            occupancy_all: self.occupancy_all,
            side_to_move: self.side_to_move,
            castling_rights: self.castling_rights,
            en_passant_square: self.en_passant_square,
            halfmove_clock: self.halfmove_clock,
            fullmove_number: self.fullmove_number,
            zobrist_key: self.zobrist_key,
            pawn_zobrist_key: self.pawn_zobrist_key,
            ply: self.ply,
            repetition_history: rh,
            undo_stack: us,
        }
    }
}

impl GameState {
    /// The position's two move clocks.
    pub fn move_counters(&self) -> (r: MoveCounters)
        ensures
            r.half_move_clock == self.halfmove_clock,
            r.full_move_count == self.fullmove_number,
    {
        MoveCounters { half_move_clock: self.halfmove_clock, full_move_count: self.fullmove_number }
    }

    /// An empty board: no pieces, Light to move, move 1.
    pub fn new_empty() -> (r: Self)
        ensures
            r@ == empty_view(),
    {
        let r = GameState {
            pieces: [[0u64, 0, 0, 0, 0, 0], [0u64, 0, 0, 0, 0, 0]],
            occupancy_by_color: [0u64, 0],
            occupancy_all: 0,
            side_to_move: Color::Light,
            castling_rights: 0,
            en_passant_square: None,
            halfmove_clock: 0,
            fullmove_number: 1,
            zobrist_key: 0,
            pawn_zobrist_key: 0,
            ply: 0,
            repetition_history: Vec::new(),
            undo_stack: Vec::new(),
        };
        proof {
            assert(r.pieces =~= [[0u64, 0, 0, 0, 0, 0], [0u64, 0, 0, 0, 0, 0]]);
            assert(r.occupancy_by_color =~= [0u64, 0]);
            assert(r@ =~= empty_view());
        }
        r
    }
}

impl Default for GameState {
    fn default() -> (r: Self)
        ensures
            r@ == empty_view(),
    {
        GameState::new_empty()
    }
}

} // verus!

verus! {

/// Reading an entry of an updated board array.
pub proof fn lemma_upd_board(p: [[u64; 6]; 2], c: int, k: int, x: u64)
    requires
        0 <= c < 2,
        0 <= k < 6,
    ensures
        forall|i: int, j: int|
            0 <= i < 2 && 0 <= j < 6 ==> #[trigger] upd_board(p, c, k, x)[i][j] == if i == c && j
                == k {
                x
            } else {
                p[i][j]
            },
{
    reveal(upd_board);
}

/// Reading an entry of an updated occupancy array.
pub proof fn lemma_upd2(a: [u64; 2], c: int, x: u64)
    requires
        0 <= c < 2,
    ensures
        forall|i: int| 0 <= i < 2 ==> #[trigger] upd2(a, c, x)[i] == if i == c { x } else { a[i] },
{
    reveal(upd2);
}

/// Removing a piece clears exactly one square of one board and of that
/// side's occupancy.
pub proof fn lemma_removed_bits(v: GameStateView, c: Color, k: PieceKind, s: u64)
    requires
        s < 64,
    ensures
        forall|c2: Color, k2: PieceKind, sq: u64|
            sq < 64 ==> (#[trigger] v.removed(c, k, s).has(c2, k2, sq) <==> (v.has(c2, k2, sq) && !(
            c2 == c && k2 == k && sq == s))),
        forall|c2: Color, sq: u64|
            sq < 64 ==> (#[trigger] bit(v.removed(c, k, s).occupancy_by_color[c2.idx() as int], sq)
                <==> (bit(v.occupancy_by_color[c2.idx() as int], sq) && !(c2 == c && sq == s))),
{
    lemma_upd_board(v.pieces, c.idx() as int, k.idx() as int, v.pieces[c.idx() as int][k.idx() as int] & !(1u64 << s));
    lemma_upd2(v.occupancy_by_color, c.idx() as int, v.occupancy_by_color[c.idx() as int] & !(1u64 << s));
    assert forall|c2: Color, k2: PieceKind, sq: u64| sq < 64 implies (#[trigger] v.removed(c, k, s).has(c2, k2, sq) <==> (v.has(c2, k2, sq) && !(
            c2 == c && k2 == k && sq == s))) by {
        crate::bits::lemma_mask_ops(v.pieces[c2.idx() as int][k2.idx() as int], s, sq);
    }
    assert forall|c2: Color, sq: u64| sq < 64 implies (#[trigger] bit(v.removed(c, k, s).occupancy_by_color[c2.idx() as int], sq)
                <==> (bit(v.occupancy_by_color[c2.idx() as int], sq) && !(c2 == c && sq == s))) by {
        crate::bits::lemma_mask_ops(v.occupancy_by_color[c2.idx() as int], s, sq);
    }
}

/// Adding a piece sets exactly one square of one board and of that side's
/// occupancy.
pub proof fn lemma_added_bits(v: GameStateView, c: Color, k: PieceKind, s: u64)
    requires
        s < 64,
    ensures
        forall|c2: Color, k2: PieceKind, sq: u64|
            sq < 64 ==> (#[trigger] v.added(c, k, s).has(c2, k2, sq) <==> (v.has(c2, k2, sq) || (c2
                == c && k2 == k && sq == s))),
        forall|c2: Color, sq: u64|
            sq < 64 ==> (#[trigger] bit(v.added(c, k, s).occupancy_by_color[c2.idx() as int], sq)
                <==> (bit(v.occupancy_by_color[c2.idx() as int], sq) || (c2 == c && sq == s))),
{
    lemma_upd_board(v.pieces, c.idx() as int, k.idx() as int, v.pieces[c.idx() as int][k.idx() as int] | (1u64 << s));
    lemma_upd2(v.occupancy_by_color, c.idx() as int, v.occupancy_by_color[c.idx() as int] | (1u64 << s));
    assert forall|c2: Color, k2: PieceKind, sq: u64| sq < 64 implies (#[trigger] v.added(c, k, s).has(c2, k2, sq) <==> (v.has(c2, k2, sq) || (c2
                == c && k2 == k && sq == s))) by {
        crate::bits::lemma_mask_ops(v.pieces[c2.idx() as int][k2.idx() as int], s, sq);
    }
    assert forall|c2: Color, sq: u64| sq < 64 implies (#[trigger] bit(v.added(c, k, s).occupancy_by_color[c2.idx() as int], sq)
                <==> (bit(v.occupancy_by_color[c2.idx() as int], sq) || (c2 == c && sq == s))) by {
        crate::bits::lemma_mask_ops(v.occupancy_by_color[c2.idx() as int], s, sq);
    }
}

/// Views that agree on every piece square have equal piece boards.
pub proof fn lemma_pieces_ext(a: GameStateView, b: GameStateView)
    requires
        forall|c: Color, k: PieceKind, sq: u64| sq < 64 ==> #[trigger] a.has(c, k, sq) == b.has(c, k, sq),
    ensures
        a.pieces == b.pieces,
{
    assert forall|c: Color, k: PieceKind| a.pieces[c.idx() as int][k.idx() as int] == b.pieces[c.idx() as int][k.idx() as int] by {
        assert forall|sq: u64| sq < 64 implies bit(a.pieces[c.idx() as int][k.idx() as int], sq) == bit(b.pieces[c.idx() as int][k.idx() as int], sq) by {
            assert(a.has(c, k, sq) == b.has(c, k, sq));
        }
        crate::bits::lemma_bits_ext(a.pieces[c.idx() as int][k.idx() as int], b.pieces[c.idx() as int][k.idx() as int]);
    }
    assert(a.pieces[0][0] == b.pieces[0][0]) by { assert(a.pieces[Color::Light.idx() as int][PieceKind::Pawn.idx() as int] == b.pieces[Color::Light.idx() as int][PieceKind::Pawn.idx() as int]); }
    assert(a.pieces[0][1] == b.pieces[0][1]) by { assert(a.pieces[Color::Light.idx() as int][PieceKind::Knight.idx() as int] == b.pieces[Color::Light.idx() as int][PieceKind::Knight.idx() as int]); }
    assert(a.pieces[0][2] == b.pieces[0][2]) by { assert(a.pieces[Color::Light.idx() as int][PieceKind::Bishop.idx() as int] == b.pieces[Color::Light.idx() as int][PieceKind::Bishop.idx() as int]); }
    assert(a.pieces[0][3] == b.pieces[0][3]) by { assert(a.pieces[Color::Light.idx() as int][PieceKind::Rook.idx() as int] == b.pieces[Color::Light.idx() as int][PieceKind::Rook.idx() as int]); }
    assert(a.pieces[0][4] == b.pieces[0][4]) by { assert(a.pieces[Color::Light.idx() as int][PieceKind::Queen.idx() as int] == b.pieces[Color::Light.idx() as int][PieceKind::Queen.idx() as int]); }
    assert(a.pieces[0][5] == b.pieces[0][5]) by { assert(a.pieces[Color::Light.idx() as int][PieceKind::King.idx() as int] == b.pieces[Color::Light.idx() as int][PieceKind::King.idx() as int]); }
    assert(a.pieces[1][0] == b.pieces[1][0]) by { assert(a.pieces[Color::Dark.idx() as int][PieceKind::Pawn.idx() as int] == b.pieces[Color::Dark.idx() as int][PieceKind::Pawn.idx() as int]); }
    assert(a.pieces[1][1] == b.pieces[1][1]) by { assert(a.pieces[Color::Dark.idx() as int][PieceKind::Knight.idx() as int] == b.pieces[Color::Dark.idx() as int][PieceKind::Knight.idx() as int]); }
    assert(a.pieces[1][2] == b.pieces[1][2]) by { assert(a.pieces[Color::Dark.idx() as int][PieceKind::Bishop.idx() as int] == b.pieces[Color::Dark.idx() as int][PieceKind::Bishop.idx() as int]); }
    assert(a.pieces[1][3] == b.pieces[1][3]) by { assert(a.pieces[Color::Dark.idx() as int][PieceKind::Rook.idx() as int] == b.pieces[Color::Dark.idx() as int][PieceKind::Rook.idx() as int]); }
    assert(a.pieces[1][4] == b.pieces[1][4]) by { assert(a.pieces[Color::Dark.idx() as int][PieceKind::Queen.idx() as int] == b.pieces[Color::Dark.idx() as int][PieceKind::Queen.idx() as int]); }
    assert(a.pieces[1][5] == b.pieces[1][5]) by { assert(a.pieces[Color::Dark.idx() as int][PieceKind::King.idx() as int] == b.pieces[Color::Dark.idx() as int][PieceKind::King.idx() as int]); }
    assert(a.pieces[0] =~= b.pieces[0]);
    assert(a.pieces[1] =~= b.pieces[1]);
    assert(a.pieces =~= b.pieces);
}

/// Views that agree on every occupancy square have equal occupancy caches.
pub proof fn lemma_occupancy_ext(a: GameStateView, b: GameStateView)
    requires
        forall|c: Color, sq: u64| sq < 64 ==> #[trigger] bit(a.occupancy_by_color[c.idx() as int], sq) == bit(b.occupancy_by_color[c.idx() as int], sq),
    ensures
        a.occupancy_by_color == b.occupancy_by_color,
{
    assert forall|sq: u64| sq < 64 implies bit(a.occupancy_by_color[0], sq) == bit(b.occupancy_by_color[0], sq) by {
        assert(bit(a.occupancy_by_color[Color::Light.idx() as int], sq) == bit(b.occupancy_by_color[Color::Light.idx() as int], sq));
    }
    assert forall|sq: u64| sq < 64 implies bit(a.occupancy_by_color[1], sq) == bit(b.occupancy_by_color[1], sq) by {
        assert(bit(a.occupancy_by_color[Color::Dark.idx() as int], sq) == bit(b.occupancy_by_color[Color::Dark.idx() as int], sq));
    }
    crate::bits::lemma_bits_ext(a.occupancy_by_color[0], b.occupancy_by_color[0]);
    crate::bits::lemma_bits_ext(a.occupancy_by_color[1], b.occupancy_by_color[1]);
    assert(a.occupancy_by_color =~= b.occupancy_by_color);
}

} // verus!
