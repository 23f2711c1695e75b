//! Applying and undoing packed moves on a `GameState`.
//!
//! `make_move_in_place` updates piece placement, castling rights,
//! en-passant state, clocks, side to move, keys and occupancies, pushing an
//! undo record; `unmake_move_in_place` pops that record and restores the
//! position.

use vstd::prelude::*;
use crate::chess_types::{
    Color, PieceKind, Square, Move, kind_of_index, CASTLE_LIGHT_KINGSIDE, CASTLE_LIGHT_QUEENSIDE,
    CASTLE_DARK_KINGSIDE, CASTLE_DARK_QUEENSIDE,
};
use crate::game_state::{GameState, GameStateView, UndoState};
use crate::legal_move_shared::piece_on_square_any;
use crate::bits::bit;
use crate::move_descriptions::{
    move_from, move_promotion_piece_code, move_to, pack_move_description, piece_kind_from_code,
    mv_from, mv_to, mv_promo, has_flag, packed, code_of, FLAG_CAPTURE, FLAG_CASTLING,
    FLAG_DOUBLE_PAWN_PUSH, FLAG_EN_PASSANT,
};
use crate::zobrist::{
    castling_key, en_passant_file_key, piece_square_key, side_to_move_key, ck, epk, stmk,
};

verus! {

broadcast use vstd::array::group_array_axioms;

/// Square of the pawn taken en passant by side `c` landing on `to`
/// (`None` when it would fall off the board).
pub open spec fn ep_capture_square(c: Color, to: u64) -> Option<u64> {
    match c {
        Color::Light => if to >= 8 {
            Some((to - 8) as u64)
        } else {
            None
        },
        Color::Dark => Some((to + 8) as u64),
    }
}

/// The piece kind a move records as captured.
pub open spec fn captured_of(v: GameStateView, m: u64) -> Option<PieceKind> {
    if has_flag(m, FLAG_EN_PASSANT) {
        Some(PieceKind::Pawn)
    } else if has_flag(m, FLAG_CAPTURE) {
        match v.occupant(mv_to(m)) {
            Some((_, k)) => Some(k),
            None => None,
        }
    } else {
        None
    }
}

/// The kind that lands on the destination square.
pub open spec fn placed_kind(m: u64, moved: PieceKind) -> PieceKind {
    match kind_of_index(mv_promo(m) as int) {
        Some(p) => p,
        None => moved,
    }
}

/// Rook origin and destination of a castling king move.
pub open spec fn castle_rook(c: Color, from: u64, to: u64) -> Option<(u64, u64)> {
    if c == Color::Light && from == 4 && to == 6 {
        Some((7u64, 5u64))
    } else if c == Color::Light && from == 4 && to == 2 {
        Some((0u64, 3u64))
    } else if c == Color::Dark && from == 60 && to == 62 {
        Some((63u64, 61u64))
    } else if c == Color::Dark && from == 60 && to == 58 {
        Some((56u64, 59u64))
    } else {
        None
    }
}

/// Castling rights after a move of `moved` by `c` from `from` to `to`.
pub open spec fn rights_after(r: u8, c: Color, from: u64, to: u64, moved: PieceKind) -> u8 {
    let r1: u8 = if moved == PieceKind::King {
        if c == Color::Light {
            r & !(CASTLE_LIGHT_KINGSIDE | CASTLE_LIGHT_QUEENSIDE)
        } else {
            r & !(CASTLE_DARK_KINGSIDE | CASTLE_DARK_QUEENSIDE)
        }
    } else {
        r
    };
    let r2: u8 = if moved == PieceKind::Rook {
        if from == 0 {
            r1 & !CASTLE_LIGHT_QUEENSIDE
        } else if from == 7 {
            r1 & !CASTLE_LIGHT_KINGSIDE
        } else if from == 56 {
            r1 & !CASTLE_DARK_QUEENSIDE
        } else if from == 63 {
            r1 & !CASTLE_DARK_KINGSIDE
        } else {
            r1
        }
    } else {
        r1
    };
    if to == 0 {
        r2 & !CASTLE_LIGHT_QUEENSIDE
    } else if to == 7 {
        r2 & !CASTLE_LIGHT_KINGSIDE
    } else if to == 56 {
        r2 & !CASTLE_DARK_QUEENSIDE
    } else if to == 63 {
        r2 & !CASTLE_DARK_KINGSIDE
    } else {
        r2
    }
}

/// The undo record pushed when `m` (moving `moved`, capturing `captured`) is
/// made in `v`.
pub open spec fn undo_for(v: GameStateView, m: u64, moved: PieceKind, captured: Option<PieceKind>) -> UndoState {
    UndoState {
        mv: m as u32,
        moved_piece: moved,
        captured_piece: captured,
        prev_pieces: v.pieces,
        prev_occupancy_by_color: v.occupancy_by_color,
        prev_occupancy_all: v.occupancy_all,
        prev_side_to_move: v.side_to_move,
        prev_castling_rights: v.castling_rights,
        prev_en_passant_square: v.en_passant_square,
        prev_halfmove_clock: v.halfmove_clock,
        prev_fullmove_number: v.fullmove_number,
        prev_ply: v.ply,
        prev_repetition_len: v.repetition_history.len() as usize,
        prev_zobrist_key: v.zobrist_key,
        prev_pawn_zobrist_key: v.pawn_zobrist_key,
    }
}

/// The moved piece kind (the piece on the origin square).
pub open spec fn moved_of(v: GameStateView, m: u64) -> PieceKind {
    v.occupant(mv_from(m)).unwrap().1
}

/// `m` can be made: some piece stands on its origin square.
pub open spec fn makeable(v: GameStateView, m: u64) -> bool {
    v.occupant(mv_from(m)) is Some
}

/// Making `m` would shift past the board: an en-passant capture by Dark
/// landing on the last rank.
pub open spec fn make_overflows(v: GameStateView, m: u64) -> bool {
    makeable(v, m) && has_flag(m, FLAG_EN_PASSANT) && v.side_to_move == Color::Dark && mv_to(m) >= 56
}

/// `m` fails halfway: an en-passant capture by Light landing on rank 1.
pub open spec fn make_fails_late(v: GameStateView, m: u64) -> bool {
    has_flag(m, FLAG_EN_PASSANT) && ep_capture_square(v.side_to_move, mv_to(m)) is None
}

/// The message of a failed make: an empty origin square is named by its
/// index; otherwise the en-passant capture square fell off the board.
pub open spec fn make_error(v: GameStateView, m: u64) -> Seq<char> {
    if !makeable(v, m) {
        "No piece on from-square "@ + crate::text::decimal_chars(mv_from(m) as nat)
    } else {
        "Invalid en-passant capture square for light"@
    }
}

/// The state after recording the undo entry and lifting the moved piece.
#[verifier::opaque]
pub open spec fn make_lifted(v: GameStateView, m: u64) -> GameStateView {
    let moved = moved_of(v, m);
    let pushed = GameStateView {
        undo_stack: v.undo_stack.push(undo_for(v, m, moved, captured_of(v, m))),
        ..v
    };
    pushed.removed(v.side_to_move, moved, mv_from(m))
}

/// The state after the lifted move also removes its capture.
#[verifier::opaque]
pub open spec fn make_captured(v: GameStateView, m: u64) -> GameStateView {
    let mover = v.side_to_move;
    let v2 = make_lifted(v, m);
    if has_flag(m, FLAG_EN_PASSANT) {
        v2.removed(mover.other(), PieceKind::Pawn, ep_capture_square(mover, mv_to(m)).unwrap())
    } else if has_flag(m, FLAG_CAPTURE) && captured_of(v, m) is Some {
        v2.removed(mover.other(), captured_of(v, m).unwrap(), mv_to(m))
    } else {
        v2
    }
}

/// The state after all piece movements of `m` (captures, placement, rook).
#[verifier::opaque]
pub open spec fn make_pieces(v: GameStateView, m: u64) -> GameStateView {
    let mover = v.side_to_move;
    let from = mv_from(m);
    let to = mv_to(m);
    let moved = moved_of(v, m);
    let v4 = make_captured(v, m).added(mover, placed_kind(m, moved), to);
    if has_flag(m, FLAG_CASTLING) && moved == PieceKind::King && castle_rook(mover, from, to) is Some {
        let (rf, rt) = castle_rook(mover, from, to).unwrap();
        v4.removed(mover, PieceKind::Rook, rf).added(mover, PieceKind::Rook, rt)
    } else {
        v4
    }
}

/// The en-passant square a move leaves behind.
pub open spec fn ep_after(m: u64) -> Option<u8> {
    if has_flag(m, FLAG_DOUBLE_PAWN_PUSH) {
        Some(((mv_from(m) + mv_to(m)) / 2) as u8)
    } else {
        None
    }
}

/// The full state after making `m` in `v`.
#[verifier::opaque]
pub open spec fn made(v: GameStateView, m: u64) -> GameStateView {
    let mover = v.side_to_move;
    let moved = moved_of(v, m);
    let base = make_pieces(v, m);
    let rights = rights_after(v.castling_rights, mover, mv_from(m), mv_to(m), moved);
    let z1 = if v.castling_rights != rights {
        base.zobrist_key ^ ck(v.castling_rights) ^ ck(rights)
    } else {
        base.zobrist_key
    };
    let z2 = match v.en_passant_square {
        Some(e) => z1 ^ epk(e % 8),
        None => z1,
    };
    let z3 = match ep_after(m) {
        Some(e) => z2 ^ epk(e % 8),
        None => z2,
    };
    let z4 = z3 ^ stmk();
    GameStateView {
        castling_rights: rights,
        en_passant_square: ep_after(m),
        halfmove_clock: if moved == PieceKind::Pawn || has_flag(m, FLAG_CAPTURE) {
            0
        } else {
            v.halfmove_clock.saturating_add(1)
        },
        fullmove_number: if mover == Color::Dark {
            v.fullmove_number.saturating_add(1)
        } else {
            v.fullmove_number
        },
        zobrist_key: z4,
        side_to_move: mover.other(),
        ply: v.ply.saturating_add(1),
        occupancy_all: base.occupancy_by_color[0] | base.occupancy_by_color[1],
        repetition_history: base.repetition_history.push(z4),
        ..base
    }
}

/// The piece-movement stages of making a move touch only the boards,
/// occupancy caches and keys, and push the undo record.
pub proof fn lemma_make_frame(v: GameStateView, m: u64)
    ensures
        ({
            let u = undo_for(v, m, moved_of(v, m), captured_of(v, m));
            &&& make_lifted(v, m) == (GameStateView {
                pieces: make_lifted(v, m).pieces,
                occupancy_by_color: make_lifted(v, m).occupancy_by_color,
                zobrist_key: make_lifted(v, m).zobrist_key,
                pawn_zobrist_key: make_lifted(v, m).pawn_zobrist_key,
                undo_stack: v.undo_stack.push(u),
                ..v
            })
            &&& make_captured(v, m) == (GameStateView {
                pieces: make_captured(v, m).pieces,
                occupancy_by_color: make_captured(v, m).occupancy_by_color,
                zobrist_key: make_captured(v, m).zobrist_key,
                pawn_zobrist_key: make_captured(v, m).pawn_zobrist_key,
                undo_stack: v.undo_stack.push(u),
                ..v
            })
            &&& make_pieces(v, m) == (GameStateView {
                pieces: make_pieces(v, m).pieces,
                occupancy_by_color: make_pieces(v, m).occupancy_by_color,
                zobrist_key: make_pieces(v, m).zobrist_key,
                pawn_zobrist_key: make_pieces(v, m).pawn_zobrist_key,
                undo_stack: v.undo_stack.push(u),
                ..v
            })
        }),
{
    reveal(make_lifted);
    reveal(make_captured);
    reveal(make_pieces);
}

/// Remove `piece` of `color` from `square`, keeping the keys in step.
pub(crate) fn remove_piece(game_state: &mut GameState, color: Color, piece: PieceKind, square: Square)
    requires
        square < 64,
    ensures
        final(game_state)@ == old(game_state)@.removed(color, piece, square as u64),
{
    let mask = 1u64 << square;
    let c = color.index();
    let p = piece.index();
    game_state.pieces[c][p] &= !mask;
    game_state.occupancy_by_color[c] &= !mask;
    game_state.zobrist_key ^= piece_square_key(color, piece, square);
    if piece == PieceKind::Pawn || piece == PieceKind::King {
        game_state.pawn_zobrist_key ^= piece_square_key(color, piece, square);
    }
    proof {
        reveal(crate::game_state::upd_board);
        reveal(crate::game_state::upd2);
        let ov = old(game_state)@;
        let t = ov.removed(color, piece, square as u64);
        assert(game_state.pieces[0] =~= t.pieces[0]);
        assert(game_state.pieces[1] =~= t.pieces[1]);
        assert(game_state.pieces =~= t.pieces);
        assert(game_state.occupancy_by_color =~= t.occupancy_by_color);
        assert(game_state@ =~= t);
    }
}

/// Put `piece` of `color` on `square`, keeping the keys in step.
pub(crate) fn add_piece(game_state: &mut GameState, color: Color, piece: PieceKind, square: Square)
    requires
        square < 64,
    ensures
        final(game_state)@ == old(game_state)@.added(color, piece, square as u64),
{
    let mask = 1u64 << square;
    let c = color.index();
    let p = piece.index();
    game_state.pieces[c][p] |= mask;
    game_state.occupancy_by_color[c] |= mask;
    game_state.zobrist_key ^= piece_square_key(color, piece, square);
    if piece == PieceKind::Pawn || piece == PieceKind::King {
        game_state.pawn_zobrist_key ^= piece_square_key(color, piece, square);
    }
    proof {
        reveal(crate::game_state::upd_board);
        reveal(crate::game_state::upd2);
        let ov = old(game_state)@;
        let t = ov.added(color, piece, square as u64);
        assert(game_state.pieces[0] =~= t.pieces[0]);
        assert(game_state.pieces[1] =~= t.pieces[1]);
        assert(game_state.pieces =~= t.pieces);
        assert(game_state.occupancy_by_color =~= t.occupancy_by_color);
        assert(game_state@ =~= t);
    }
}

/// Move a rook of `color` from `from` to `to`.
fn move_rook(game_state: &mut GameState, color: Color, from: Square, to: Square) -> (r: Result<(), String>)
    requires
        from < 64,
        to < 64,
    ensures
        r is Ok,
        final(game_state)@ == old(game_state)@.removed(color, PieceKind::Rook, from as u64).added(
            color,
            PieceKind::Rook,
            to as u64,
        ),
{
    remove_piece(game_state, color, PieceKind::Rook, from);
    add_piece(game_state, color, PieceKind::Rook, to);
    Ok(())
}

/// Clear the castling rights a king or rook move, or a capture on a rook
/// corner, gives up.
fn update_castling_rights(game_state: &mut GameState, moving_color: Color, from: Square, to: Square, moved_piece: PieceKind)
    ensures
        final(game_state)@ == (GameStateView {
            castling_rights: rights_after(old(game_state).castling_rights, moving_color, from as u64, to as u64, moved_piece),
            ..old(game_state)@
        }),
{
    let r0 = game_state.castling_rights;
    let r1: u8 = if moved_piece == PieceKind::King {
        if moving_color == Color::Light {
            r0 & !(CASTLE_LIGHT_KINGSIDE | CASTLE_LIGHT_QUEENSIDE)
        } else {
            r0 & !(CASTLE_DARK_KINGSIDE | CASTLE_DARK_QUEENSIDE)
        }
    } else {
        r0
    };
    let r2: u8 = if moved_piece == PieceKind::Rook {
        if from == 0 {
            r1 & !CASTLE_LIGHT_QUEENSIDE
        } else if from == 7 {
            r1 & !CASTLE_LIGHT_KINGSIDE
        } else if from == 56 {
            r1 & !CASTLE_DARK_QUEENSIDE
        } else if from == 63 {
            r1 & !CASTLE_DARK_KINGSIDE
        } else {
            r1
        }
    } else {
        r1
    };
    let r3: u8 = if to == 0 {
        r2 & !CASTLE_LIGHT_QUEENSIDE
    } else if to == 7 {
        r2 & !CASTLE_LIGHT_KINGSIDE
    } else if to == 56 {
        r2 & !CASTLE_DARK_QUEENSIDE
    } else if to == 63 {
        r2 & !CASTLE_DARK_KINGSIDE
    } else {
        r2
    };
    game_state.castling_rights = r3;
    proof {
        assert(game_state@ =~= (GameStateView {
            castling_rights: rights_after(old(game_state).castling_rights, moving_color, from as u64, to as u64, moved_piece),
            ..old(game_state)@
        }));
    }
}

/// Pack a move from its parts (see `move_descriptions` for the layout).
pub fn build_move(
    from: Square,
    to: Square,
    moved_piece: PieceKind,
    captured_piece: Option<PieceKind>,
    promotion_piece: Option<PieceKind>,
    flags: u64,
) -> (r: u64)
    requires
        from < 64,
        to < 64,
    ensures
        r == packed(
            from as u64,
            to as u64,
            moved_piece.idx() as u64,
            code_of(captured_piece),
            code_of(promotion_piece),
            flags,
        ),
{
    pack_move_description(from, to, moved_piece, captured_piece, promotion_piece, flags)
}

/// The message for a move whose origin square is empty.
fn no_piece_message(from: Square) -> (r: String)
    ensures
        r@ == "No piece on from-square "@ + crate::text::decimal_chars(from as nat),
{
    let mut s = String::from_str("No piece on from-square ");
    crate::text::append_decimal(&mut s, from as u64);
    s
}

/// Record the undo entry and lift the moving piece.
fn make_lift(game_state: &mut GameState, move_description: u64, moved_piece: PieceKind) -> (r: Option<PieceKind>)
    requires
        makeable(old(game_state)@, move_description),
        moved_piece == moved_of(old(game_state)@, move_description),
    ensures
        final(game_state)@ == make_lifted(old(game_state)@, move_description),
        r == captured_of(old(game_state)@, move_description),
{
    proof {
        reveal(make_lifted);
    }
    let ghost v0 = game_state@;
    let ghost m = move_description;
    let from = move_from(move_description);
    let to = move_to(move_description);
    let moving_color = game_state.side_to_move;
    let captured_piece = if (move_description & FLAG_EN_PASSANT) != 0 {
        Some(PieceKind::Pawn)
    } else if (move_description & FLAG_CAPTURE) != 0 {
        match piece_on_square_any(game_state, to) {
            Some((_, p)) => Some(p),
            None => None,
        }
    } else {
        None
    };
    let undo = UndoState {
        mv: move_description as Move,
        moved_piece,
        captured_piece,
        prev_pieces: game_state.pieces,
        prev_occupancy_by_color: game_state.occupancy_by_color,
        prev_occupancy_all: game_state.occupancy_all,
        prev_side_to_move: game_state.side_to_move,
        prev_castling_rights: game_state.castling_rights,
        prev_en_passant_square: game_state.en_passant_square,
        prev_halfmove_clock: game_state.halfmove_clock,
        prev_fullmove_number: game_state.fullmove_number,
        prev_ply: game_state.ply,
        prev_repetition_len: game_state.repetition_history.len(),
        prev_zobrist_key: game_state.zobrist_key,
        prev_pawn_zobrist_key: game_state.pawn_zobrist_key,
    };
    proof {
        assert(undo == undo_for(v0, m, moved_piece, captured_of(v0, m)));
    }
    game_state.undo_stack.push(undo);
    proof {
        assert(game_state@ =~= (GameStateView {
            undo_stack: v0.undo_stack.push(undo_for(v0, m, moved_piece, captured_of(v0, m))),
            ..v0
        }));
    }
    remove_piece(game_state, moving_color, moved_piece, from);
    captured_piece
}

/// Remove the piece a lifted move captures.
fn make_capture(game_state: &mut GameState, move_description: u64, captured_piece: Option<PieceKind>, Ghost(v0): Ghost<GameStateView>) -> (r: Result<(), String>)
    requires
        makeable(v0, move_description),
        old(game_state)@ == make_lifted(v0, move_description),
        captured_piece == captured_of(v0, move_description),
        !make_overflows(v0, move_description),
    ensures
        make_fails_late(v0, move_description) ==> r is Err && final(game_state)@ == old(game_state)@,
        r matches Err(e) ==> e@ == make_error(v0, move_description),
        !make_fails_late(v0, move_description) ==> r is Ok && final(game_state)@ == make_captured(
            v0,
            move_description,
        ),
{
    proof {
        reveal(make_lifted);
        reveal(make_captured);
    }
    let to = move_to(move_description);
    let moving_color = game_state.side_to_move;
    let enemy_color = moving_color.opposite();
    assert(moving_color == v0.side_to_move);
    if (move_description & FLAG_EN_PASSANT) != 0 {
        let capture_sq = if moving_color == Color::Light {
            match to.checked_sub(8) {
                Some(x) => x,
                None => {
                    return Err(String::from_str("Invalid en-passant capture square for light"));
                },
            }
        } else {
            match to.checked_add(8) {
                Some(x) => x,
                None => {
                    return Err(String::from_str("Invalid en-passant capture square for dark"));
                },
            }
        };
        remove_piece(game_state, enemy_color, PieceKind::Pawn, capture_sq);
    } else if (move_description & FLAG_CAPTURE) != 0 {
        if let Some(captured) = captured_piece {
            remove_piece(game_state, enemy_color, captured, to);
        }
    }
    Ok(())
}

/// Place the moved or promoted piece and move the castling rook.
fn make_place(game_state: &mut GameState, move_description: u64, moved_piece: PieceKind, Ghost(v0): Ghost<GameStateView>)
    requires
        makeable(v0, move_description),
        moved_piece == moved_of(v0, move_description),
        old(game_state)@ == make_captured(v0, move_description),
    ensures
        final(game_state)@ == make_pieces(v0, move_description),
{
    proof {
        reveal(make_pieces);
        lemma_make_frame(v0, move_description);
    }
    let from = move_from(move_description);
    let to = move_to(move_description);
    let moving_color = game_state.side_to_move;
    assert(moving_color == v0.side_to_move);
    let promotion_piece = piece_kind_from_code(move_promotion_piece_code(move_description));
    if let Some(promo) = promotion_piece {
        add_piece(game_state, moving_color, promo, to);
    } else {
        add_piece(game_state, moving_color, moved_piece, to);
    }
    if (move_description & FLAG_CASTLING) != 0 && moved_piece == PieceKind::King {
        if moving_color == Color::Light && from == 4 && to == 6 {
            let _ = move_rook(game_state, moving_color, 7, 5);
        } else if moving_color == Color::Light && from == 4 && to == 2 {
            let _ = move_rook(game_state, moving_color, 0, 3);
        } else if moving_color == Color::Dark && from == 60 && to == 62 {
            let _ = move_rook(game_state, moving_color, 63, 61);
        } else if moving_color == Color::Dark && from == 60 && to == 58 {
            let _ = move_rook(game_state, moving_color, 56, 59);
        }
    }
}

/// Update rights, en-passant square, clocks, side, ply, keys and caches
/// after the piece movements of a move.
fn make_bookkeeping(game_state: &mut GameState, move_description: u64, moved_piece: PieceKind, Ghost(v0): Ghost<GameStateView>)
    requires
        makeable(v0, move_description),
        moved_piece == moved_of(v0, move_description),
        old(game_state)@ == make_pieces(v0, move_description),
    ensures
        final(game_state)@ == made(v0, move_description),
{
    proof {
        reveal(made);
        lemma_make_frame(v0, move_description);
    }
    let ghost m = move_description;
    let from = move_from(move_description);
    let to = move_to(move_description);
    let moving_color = game_state.side_to_move;
    let enemy_color = moving_color.opposite();
    let prev_castling = game_state.castling_rights;
    let prev_en_passant = game_state.en_passant_square;
    assert(moving_color == v0.side_to_move);
    assert(prev_castling == v0.castling_rights);
    assert(prev_en_passant == v0.en_passant_square);

    update_castling_rights(game_state, moving_color, from, to, moved_piece);
    if prev_castling != game_state.castling_rights {
        game_state.zobrist_key ^= castling_key(prev_castling);
        game_state.zobrist_key ^= castling_key(game_state.castling_rights);
    }
    if let Some(prev_ep) = prev_en_passant {
        game_state.zobrist_key ^= en_passant_file_key(prev_ep % 8);
    }
    game_state.en_passant_square = if (move_description & FLAG_DOUBLE_PAWN_PUSH) != 0 {
        Some((from + to) / 2)
    } else {
        None
    };
    if let Some(new_ep) = game_state.en_passant_square {
        game_state.zobrist_key ^= en_passant_file_key(new_ep % 8);
    }
    if moved_piece == PieceKind::Pawn || (move_description & FLAG_CAPTURE) != 0 {
        game_state.halfmove_clock = 0;
    } else {
        game_state.halfmove_clock = game_state.halfmove_clock.saturating_add(1);
    }
    if moving_color == Color::Dark {
        game_state.fullmove_number = game_state.fullmove_number.saturating_add(1);
    }
    game_state.zobrist_key ^= side_to_move_key();
    game_state.side_to_move = enemy_color;
    game_state.ply = game_state.ply.saturating_add(1);
    game_state.occupancy_all = game_state.occupancy_by_color[Color::Light.index()]
        | game_state.occupancy_by_color[Color::Dark.index()];
    let key = game_state.zobrist_key;
    game_state.repetition_history.push(key);
    proof {
        assert(game_state@ =~= made(v0, m));
    }
}

/// Apply a move to the state in place and push an undo record.
///
/// Fails, leaving the state untouched, when the origin square is empty; an
/// en-passant capture by Light landing on the first rank fails after the
/// undo record is pushed and the moving piece lifted.
pub fn make_move_in_place(game_state: &mut GameState, move_description: u64) -> (r: Result<(), String>)
    requires
        !make_overflows(old(game_state)@, move_description),
    ensures
        !makeable(old(game_state)@, move_description) ==> r is Err && final(game_state)@ == old(
            game_state,
        )@,
        makeable(old(game_state)@, move_description) && make_fails_late(
            old(game_state)@,
            move_description,
        ) ==> r is Err && final(game_state)@ == make_lifted(old(game_state)@, move_description),
        makeable(old(game_state)@, move_description) && !make_fails_late(
            old(game_state)@,
            move_description,
        ) ==> r is Ok && final(game_state)@ == made(old(game_state)@, move_description),
        r matches Err(e) ==> e@ == make_error(old(game_state)@, move_description),
        r is Ok && (has_flag(move_description, FLAG_CAPTURE) || moved_of(old(game_state)@, move_description)
            == PieceKind::Pawn) ==> final(game_state)@.halfmove_clock == 0,
{
    let ghost v0 = game_state@;
    proof {
        lemma_halfmove_clock_after_make(v0, move_description);
    }
    let from = move_from(move_description);
    let moved_piece = match piece_on_square_any(game_state, from) {
        Some((_, p)) => p,
        None => {
            return Err(no_piece_message(from));
        },
    };
    let captured_piece = make_lift(game_state, move_description, moved_piece);
    match make_capture(game_state, move_description, captured_piece, Ghost(v0)) {
        Ok(()) => {},
        Err(e) => {
            return Err(e);
        },
    }
    make_place(game_state, move_description, moved_piece, Ghost(v0));
    make_bookkeeping(game_state, move_description, moved_piece, Ghost(v0));
    Ok(())
}

/// The last undo record of a state.
pub open spec fn top_undo(v: GameStateView) -> UndoState {
    v.undo_stack.last()
}

/// Unmaking would shift past the board: the recorded move is an
/// en-passant capture by Dark that landed on the last rank.
pub open spec fn unmake_overflows(v: GameStateView) -> bool {
    v.undo_stack.len() > 0 && has_flag(top_undo(v).mv as u64, FLAG_EN_PASSANT)
        && top_undo(v).prev_side_to_move == Color::Dark && mv_to(top_undo(v).mv as u64) >= 56
}

/// Unmaking fails halfway: the recorded move is an en-passant capture by
/// Light that landed on the first rank.
pub open spec fn unmake_fails_late(v: GameStateView) -> bool {
    v.undo_stack.len() > 0 && has_flag(top_undo(v).mv as u64, FLAG_EN_PASSANT)
        && ep_capture_square(top_undo(v).prev_side_to_move, mv_to(top_undo(v).mv as u64)) is None
}

/// The state after popping the undo record and moving the piece (and a
/// castling rook) back.
#[verifier::opaque]
pub open spec fn unmake_moved_back(v: GameStateView) -> GameStateView {
    let u = top_undo(v);
    let moving = u.prev_side_to_move;
    let mv = u.mv as u64;
    let from = mv_from(mv);
    let to = mv_to(mv);
    let s1 = GameStateView {
        undo_stack: v.undo_stack.drop_last(),
        side_to_move: moving,
        ..v
    };
    let s3 = s1.removed(moving, placed_kind(mv, u.moved_piece), to).added(moving, u.moved_piece, from);
    if has_flag(mv, FLAG_CASTLING) && u.moved_piece == PieceKind::King && castle_rook(moving, from, to) is Some {
        let (rf, rt) = castle_rook(moving, from, to).unwrap();
        s3.removed(moving, PieceKind::Rook, rt).added(moving, PieceKind::Rook, rf)
    } else {
        s3
    }
}

/// The state after the moved-back position also gets its capture back.
#[verifier::opaque]
pub open spec fn unmake_restored(v: GameStateView) -> GameStateView {
    let u = top_undo(v);
    let moving = u.prev_side_to_move;
    let mv = u.mv as u64;
    let s4 = unmake_moved_back(v);
    if has_flag(mv, FLAG_EN_PASSANT) {
        s4.added(moving.other(), PieceKind::Pawn, ep_capture_square(moving, mv_to(mv)).unwrap())
    } else if u.captured_piece is Some {
        s4.added(moving.other(), u.captured_piece.unwrap(), mv_to(mv))
    } else {
        s4
    }
}

/// The full state after unmaking the last move.
#[verifier::opaque]
pub open spec fn unmade(v: GameStateView) -> GameStateView {
    let u = top_undo(v);
    let s5 = unmake_restored(v);
    GameStateView {
        castling_rights: u.prev_castling_rights,
        en_passant_square: u.prev_en_passant_square,
        halfmove_clock: u.prev_halfmove_clock,
        fullmove_number: u.prev_fullmove_number,
        ply: u.prev_ply,
        zobrist_key: u.prev_zobrist_key,
        pawn_zobrist_key: u.prev_pawn_zobrist_key,
        repetition_history: if u.prev_repetition_len <= s5.repetition_history.len() {
            s5.repetition_history.subrange(0, u.prev_repetition_len as int)
        } else {
            s5.repetition_history
        },
        occupancy_all: s5.occupancy_by_color[0] | s5.occupancy_by_color[1],
        ..s5
    }
}

/// The piece-movement stages of unmaking touch only the boards, occupancy
/// caches and keys, pop the undo record and restore the side to move.
pub proof fn lemma_unmake_frame(d: GameStateView)
    ensures
        unmake_moved_back(d) == (GameStateView {
            pieces: unmake_moved_back(d).pieces,
            occupancy_by_color: unmake_moved_back(d).occupancy_by_color,
            zobrist_key: unmake_moved_back(d).zobrist_key,
            pawn_zobrist_key: unmake_moved_back(d).pawn_zobrist_key,
            undo_stack: d.undo_stack.drop_last(),
            side_to_move: top_undo(d).prev_side_to_move,
            ..d
        }),
        unmake_restored(d) == (GameStateView {
            pieces: unmake_restored(d).pieces,
            occupancy_by_color: unmake_restored(d).occupancy_by_color,
            zobrist_key: unmake_restored(d).zobrist_key,
            pawn_zobrist_key: unmake_restored(d).pawn_zobrist_key,
            undo_stack: d.undo_stack.drop_last(),
            side_to_move: top_undo(d).prev_side_to_move,
            ..d
        }),
{
    reveal(unmake_moved_back);
    reveal(unmake_restored);
}

/// Pop the undo record and move the piece and castling rook back.
fn unmake_move_back(game_state: &mut GameState) -> (u: UndoState)
    requires
        old(game_state)@.undo_stack.len() > 0,
    ensures
        u == top_undo(old(game_state)@),
        final(game_state)@ == unmake_moved_back(old(game_state)@),
{
    proof {
        reveal(unmake_moved_back);
    }
    let ghost v0 = game_state@;
    let undo = game_state.undo_stack.pop().unwrap();
    let moving_color = undo.prev_side_to_move;
    let mv = undo.mv as u64;
    let from = move_from(mv);
    let to = move_to(mv);
    game_state.side_to_move = moving_color;
    proof {
        assert(game_state@ =~= (GameStateView {
            undo_stack: v0.undo_stack.drop_last(),
            side_to_move: moving_color,
            ..v0
        }));
    }
    let promotion_piece = piece_kind_from_code(move_promotion_piece_code(mv));
    if let Some(promo) = promotion_piece {
        remove_piece(game_state, moving_color, promo, to);
    } else {
        remove_piece(game_state, moving_color, undo.moved_piece, to);
    }
    add_piece(game_state, moving_color, undo.moved_piece, from);
    if (mv & FLAG_CASTLING) != 0 && undo.moved_piece == PieceKind::King {
        if moving_color == Color::Light && from == 4 && to == 6 {
            let _ = move_rook(game_state, moving_color, 5, 7);
        } else if moving_color == Color::Light && from == 4 && to == 2 {
            let _ = move_rook(game_state, moving_color, 3, 0);
        } else if moving_color == Color::Dark && from == 60 && to == 62 {
            let _ = move_rook(game_state, moving_color, 61, 63);
        } else if moving_color == Color::Dark && from == 60 && to == 58 {
            let _ = move_rook(game_state, moving_color, 59, 56);
        }
    }
    undo
}

/// Put back the piece the recorded move captured.
fn unmake_restore_capture(game_state: &mut GameState, undo: UndoState, Ghost(v0): Ghost<GameStateView>) -> (r: Result<(), String>)
    requires
        v0.undo_stack.len() > 0,
        undo == top_undo(v0),
        !unmake_overflows(v0),
        old(game_state)@ == unmake_moved_back(v0),
    ensures
        unmake_fails_late(v0) ==> r is Err && final(game_state)@ == old(game_state)@,
        !unmake_fails_late(v0) ==> r is Ok && final(game_state)@ == unmake_restored(v0),
{
    proof {
        reveal(unmake_restored);
    }
    let moving_color = undo.prev_side_to_move;
    let enemy_color = moving_color.opposite();
    let mv = undo.mv as u64;
    let to = move_to(mv);
    if (mv & FLAG_EN_PASSANT) != 0 {
        let capture_sq = if moving_color == Color::Light {
            match to.checked_sub(8) {
                Some(x) => x,
                None => {
                    return Err(String::from_str("Invalid en-passant capture square for light during unmake"));
                },
            }
        } else {
            match to.checked_add(8) {
                Some(x) => x,
                None => {
                    return Err(String::from_str("Invalid en-passant capture square for dark during unmake"));
                },
            }
        };
        add_piece(game_state, enemy_color, PieceKind::Pawn, capture_sq);
    } else if let Some(captured_piece) = undo.captured_piece {
        add_piece(game_state, enemy_color, captured_piece, to);
    }
    Ok(())
}

/// Undo the last move applied with `make_move_in_place`.
///
/// Fails, leaving the state untouched, when the undo stack is empty; a
/// recorded en-passant capture by Light on the first rank fails after the
/// piece has been moved back.
pub fn unmake_move_in_place(game_state: &mut GameState) -> (r: Result<(), String>)
    requires
        !unmake_overflows(old(game_state)@),
    ensures
        old(game_state)@.undo_stack.len() == 0 ==> r is Err && final(game_state)@ == old(game_state)@,
        old(game_state)@.undo_stack.len() > 0 && unmake_fails_late(old(game_state)@) ==> r is Err
            && final(game_state)@ == unmake_moved_back(old(game_state)@),
        old(game_state)@.undo_stack.len() > 0 && !unmake_fails_late(old(game_state)@) ==> r is Ok
            && final(game_state)@ == unmade(old(game_state)@),
{
    proof {
        reveal(unmade);
    }
    let ghost v0 = game_state@;
    if game_state.undo_stack.len() == 0 {
        return Err(String::from_str("undo stack is empty; cannot unmake move"));
    }
    let undo = unmake_move_back(game_state);
    match unmake_restore_capture(game_state, undo, Ghost(v0)) {
        Ok(()) => {},
        Err(e) => {
            return Err(e);
        },
    }
    game_state.castling_rights = undo.prev_castling_rights;
    game_state.en_passant_square = undo.prev_en_passant_square;
    game_state.halfmove_clock = undo.prev_halfmove_clock;
    game_state.fullmove_number = undo.prev_fullmove_number;
    game_state.ply = undo.prev_ply;
    game_state.zobrist_key = undo.prev_zobrist_key;
    game_state.pawn_zobrist_key = undo.prev_pawn_zobrist_key;
    game_state.repetition_history.truncate(undo.prev_repetition_len);
    game_state.occupancy_all = game_state.occupancy_by_color[Color::Light.index()]
        | game_state.occupancy_by_color[Color::Dark.index()];
    proof {
        assert(game_state@ =~= unmade(v0));
    }
    Ok(())
}

/// The state after making `m`, without its undo record.
pub open spec fn applied(v: GameStateView, m: u64) -> GameStateView {
    GameStateView { undo_stack: v.undo_stack, ..made(v, m) }
}

/// Apply a move to a copy of the state, returning the new state (without
/// an undo record).
pub fn apply_move(game_state: &GameState, move_description: u64) -> (r: Result<GameState, String>)
    requires
        !make_overflows(game_state@, move_description),
    ensures
        r is Ok <==> (makeable(game_state@, move_description) && !make_fails_late(game_state@, move_description)),
        r matches Ok(next) ==> next@ == applied(game_state@, move_description),
        r matches Err(e) ==> e@ == make_error(game_state@, move_description),
        r matches Ok(next) ==> (has_flag(move_description, FLAG_CAPTURE) || moved_of(game_state@, move_description)
            == PieceKind::Pawn ==> next@.halfmove_clock == 0),
{
    proof {
        lemma_halfmove_clock_after_make(game_state@, move_description);
    }
    proof {
        reveal(made);
        reveal(make_pieces);
        reveal(make_captured);
        reveal(make_lifted);
    }
    let mut next = game_state.clone();
    match make_move_in_place(&mut next, move_description) {
        Ok(()) => {},
        Err(e) => {
            return Err(e);
        },
    }
    let _ = next.undo_stack.pop();
    proof {
        assert(next@ =~= applied(game_state@, move_description));
    }
    Ok(next)
}

/// `m` can be made and exactly undone in `v`: the origin holds a piece of
/// the side to move, the destination differs from it and holds no piece of
/// that side, an en-passant capture finds the enemy pawn behind the
/// destination, and a castling king move finds its rook with the rook's
/// destination free of the mover's pieces.
pub open spec fn reversible(v: GameStateView, m: u64) -> bool {
    let mover = v.side_to_move;
    let from = mv_from(m);
    let to = mv_to(m);
    &&& v.occupant(from) matches Some((c, _)) && c == mover
    &&& from != to
    &&& !(v.occupant(to) matches Some((c, _)) && c == mover)
    &&& has_flag(m, FLAG_EN_PASSANT) ==> (ep_capture_square(mover, to) matches Some(cs) && cs < 64
        && v.has(mover.other(), PieceKind::Pawn, cs))
    &&& (has_flag(m, FLAG_CASTLING) && moved_of(v, m) == PieceKind::King && castle_rook(mover, from, to) is Some) ==> {
        let (rf, rt) = castle_rook(mover, from, to).unwrap();
        &&& v.has(mover, PieceKind::Rook, rf)
        &&& !(v.occupant(rt) matches Some((c, _)) && c == mover)
    }
}

/// Under well-formedness the occupant of a square is the only piece there.
pub proof fn lemma_occupant_unique(v: GameStateView, sq: u64)
    requires
        v.wf(),
        sq < 64,
    ensures
        forall|c: Color, k: PieceKind| #[trigger] v.has(c, k, sq) <==> v.occupant(sq) == Some((c, k)),
{
    assert forall|c: Color, k: PieceKind| #[trigger] v.has(c, k, sq) implies v.occupant(sq) == Some((c, k)) by {
        match v.occupant(sq) {
            Some((c2, k2)) => {
                assert(v.has(c2, k2, sq));
            },
            None => {},
        }
    }
}

/// A castling king move with a rook path.
pub open spec fn castles(v: GameStateView, m: u64) -> bool {
    has_flag(m, FLAG_CASTLING) && moved_of(v, m) == PieceKind::King && castle_rook(
        v.side_to_move,
        mv_from(m),
        mv_to(m),
    ) is Some
}

/// Rook origin of a castling move.
pub open spec fn rook_from(v: GameStateView, m: u64) -> u64 {
    castle_rook(v.side_to_move, mv_from(m), mv_to(m)).unwrap().0
}

/// Rook destination of a castling move.
pub open spec fn rook_to(v: GameStateView, m: u64) -> u64 {
    castle_rook(v.side_to_move, mv_from(m), mv_to(m)).unwrap().1
}

/// Where the piece movements of a reversible move leave each piece.
proof fn lemma_make_pieces_has(v: GameStateView, m: u64)
    requires
        v.wf(),
        reversible(v, m),
    ensures
        forall|c2: Color, k2: PieceKind, sq: u64|
            sq < 64 ==> #[trigger] make_pieces(v, m).has(c2, k2, sq) == (
            (v.has(c2, k2, sq)
                && !(c2 == v.side_to_move && k2 == moved_of(v, m) && sq == mv_from(m))
                && !(has_flag(m, FLAG_EN_PASSANT) && c2 == v.side_to_move.other() && k2 == PieceKind::Pawn && sq == cs_of(v, m))
                && !(!has_flag(m, FLAG_EN_PASSANT) && has_flag(m, FLAG_CAPTURE) && captured_of(v, m) == Some(k2) && c2 == v.side_to_move.other() && sq == mv_to(m))
                && !(castles(v, m) && c2 == v.side_to_move && k2 == PieceKind::Rook && sq == rook_from(v, m)))
            || (c2 == v.side_to_move && k2 == placed_kind(m, moved_of(v, m)) && sq == mv_to(m))
            || (castles(v, m) && c2 == v.side_to_move && k2 == PieceKind::Rook && sq == rook_to(v, m))),
{
    reveal(make_pieces);
    reveal(make_captured);
    reveal(make_lifted);
    let mover = v.side_to_move;
    let enemy = mover.other();
    let from = mv_from(m);
    let to = mv_to(m);
    crate::move_descriptions::lemma_field_bounds(m);
    let moved = moved_of(v, m);
    let placed = placed_kind(m, moved);
    let u = undo_for(v, m, moved, captured_of(v, m));
    let pushed = GameStateView { undo_stack: v.undo_stack.push(u), ..v };
    let a = make_lifted(v, m);
    let b = make_captured(v, m);
    crate::game_state::lemma_removed_bits(pushed, mover, moved, from);
    let cs = cs_of(v, m);
    let ck = captured_of(v, m);
    if has_flag(m, FLAG_EN_PASSANT) {
        crate::game_state::lemma_removed_bits(a, enemy, PieceKind::Pawn, cs);
    } else if has_flag(m, FLAG_CAPTURE) && ck is Some {
        crate::game_state::lemma_removed_bits(a, enemy, ck.unwrap(), to);
    }
    let c0 = b.added(mover, placed, to);
    crate::game_state::lemma_added_bits(b, mover, placed, to);
    if castles(v, m) {
        let rf = rook_from(v, m);
        let rt = rook_to(v, m);
        crate::game_state::lemma_removed_bits(c0, mover, PieceKind::Rook, rf);
        crate::game_state::lemma_added_bits(c0.removed(mover, PieceKind::Rook, rf), mover, PieceKind::Rook, rt);
    }
    assert forall|c2: Color, k2: PieceKind, sq: u64| sq < 64 implies pushed.has(c2, k2, sq) == v.has(c2, k2, sq) by {}
}

/// Where unmaking puts each piece back.
proof fn lemma_unmake_pieces_has(d: GameStateView)
    requires
        d.undo_stack.len() > 0,
        !unmake_overflows(d),
        !unmake_fails_late(d),
    ensures
        ({
            let u = top_undo(d);
            let mover = u.prev_side_to_move;
            let mv = u.mv as u64;
            let placed = placed_kind(mv, u.moved_piece);
            let cst = has_flag(mv, FLAG_CASTLING) && u.moved_piece == PieceKind::King && castle_rook(mover, mv_from(mv), mv_to(mv)) is Some;
            let rf = castle_rook(mover, mv_from(mv), mv_to(mv)).unwrap().0;
            let rt = castle_rook(mover, mv_from(mv), mv_to(mv)).unwrap().1;
            let cs = ep_capture_square(mover, mv_to(mv)).unwrap();
            forall|c2: Color, k2: PieceKind, sq: u64|
                sq < 64 ==> #[trigger] unmake_restored(d).has(c2, k2, sq) == (
                (d.has(c2, k2, sq)
                    && !(c2 == mover && k2 == placed && sq == mv_to(mv))
                    && !(cst && c2 == mover && k2 == PieceKind::Rook && sq == rt))
                || (c2 == mover && k2 == u.moved_piece && sq == mv_from(mv))
                || (cst && c2 == mover && k2 == PieceKind::Rook && sq == rf)
                || (has_flag(mv, FLAG_EN_PASSANT) && c2 == mover.other() && k2 == PieceKind::Pawn && sq == cs)
                || (!has_flag(mv, FLAG_EN_PASSANT) && u.captured_piece == Some(k2) && c2 == mover.other() && sq == mv_to(mv)))
        }),
{
    reveal(unmake_restored);
    reveal(unmake_moved_back);
    let u = top_undo(d);
    let mover = u.prev_side_to_move;
    let mv = u.mv as u64;
    crate::move_descriptions::lemma_field_bounds(mv);
    let from = mv_from(mv);
    let to = mv_to(mv);
    let placed = placed_kind(mv, u.moved_piece);
    let s1 = GameStateView { undo_stack: d.undo_stack.drop_last(), side_to_move: mover, ..d };
    crate::game_state::lemma_removed_bits(s1, mover, placed, to);
    crate::game_state::lemma_added_bits(s1.removed(mover, placed, to), mover, u.moved_piece, from);
    let e0 = s1.removed(mover, placed, to).added(mover, u.moved_piece, from);
    let cst = has_flag(mv, FLAG_CASTLING) && u.moved_piece == PieceKind::King && castle_rook(mover, from, to) is Some;
    if cst {
        let rf = castle_rook(mover, from, to).unwrap().0;
        let rt = castle_rook(mover, from, to).unwrap().1;
        crate::game_state::lemma_removed_bits(e0, mover, PieceKind::Rook, rt);
        crate::game_state::lemma_added_bits(e0.removed(mover, PieceKind::Rook, rt), mover, PieceKind::Rook, rf);
    }
    let e = unmake_moved_back(d);
    if has_flag(mv, FLAG_EN_PASSANT) {
        crate::game_state::lemma_added_bits(e, mover.other(), PieceKind::Pawn, ep_capture_square(mover, to).unwrap());
    } else if u.captured_piece is Some {
        crate::game_state::lemma_added_bits(e, mover.other(), u.captured_piece.unwrap(), to);
    }
    assert forall|c2: Color, k2: PieceKind, sq: u64| sq < 64 implies s1.has(c2, k2, sq) == d.has(c2, k2, sq) by {}
}

/// The undo record on top after making a reversible move, and what it
/// reads back.
proof fn lemma_made_undo(v: GameStateView, m: u64)
    requires
        v.wf(),
        reversible(v, m),
    ensures
        made(v, m).undo_stack.len() > 0,
        top_undo(made(v, m)) == undo_for(v, m, moved_of(v, m), captured_of(v, m)),
        mv_from(top_undo(made(v, m)).mv as u64) == mv_from(m),
        mv_to(top_undo(made(v, m)).mv as u64) == mv_to(m),
        mv_promo(top_undo(made(v, m)).mv as u64) == mv_promo(m),
        has_flag(top_undo(made(v, m)).mv as u64, FLAG_EN_PASSANT) == has_flag(m, FLAG_EN_PASSANT),
        has_flag(top_undo(made(v, m)).mv as u64, FLAG_CASTLING) == has_flag(m, FLAG_CASTLING),
        !unmake_overflows(made(v, m)),
        !unmake_fails_late(made(v, m)),
        makeable(v, m),
        !make_overflows(v, m),
        !make_fails_late(v, m),
{
    reveal(made);
    reveal(make_pieces);
    reveal(make_captured);
    reveal(make_lifted);
    crate::move_descriptions::lemma_field_bounds(m);
    crate::move_descriptions::lemma_move_as_u32(m);
}

/// Piece boards come back after make then unmake.
#[verifier::spinoff_prover]
#[verifier::rlimit(100)]
proof fn lemma_roundtrip_pieces(v: GameStateView, m: u64)
    requires
        v.wf(),
        reversible(v, m),
    ensures
        unmake_restored(made(v, m)).pieces == v.pieces,
{
    reveal(made);
    let mover = v.side_to_move;
    let from = mv_from(m);
    let to = mv_to(m);
    crate::move_descriptions::lemma_field_bounds(m);
    lemma_made_undo(v, m);
    let d = made(v, m);
    let f = unmake_restored(d);
    lemma_occupant_unique(v, from);
    lemma_occupant_unique(v, to);
    if has_flag(m, FLAG_EN_PASSANT) {
        lemma_occupant_unique(v, cs_of(v, m));
    }
    if castles(v, m) {
        lemma_occupant_unique(v, rook_from(v, m));
        lemma_occupant_unique(v, rook_to(v, m));
    }
    lemma_make_pieces_has(v, m);
    lemma_unmake_pieces_has(d);
    assert forall|c2: Color, k2: PieceKind, sq: u64| sq < 64 implies #[trigger] f.has(c2, k2, sq) == v.has(c2, k2, sq) by {
        assert(d.has(c2, k2, sq) == make_pieces(v, m).has(c2, k2, sq));
    }
    crate::game_state::lemma_pieces_ext(f, v);
}

/// Which occupancy squares the piece movements of a reversible move set.
proof fn lemma_make_occ_bits(v: GameStateView, m: u64)
    requires
        v.wf(),
        reversible(v, m),
    ensures
        forall|c2: Color, sq: u64|
            sq < 64 ==> #[trigger] bit(make_pieces(v, m).occupancy_by_color[c2.idx() as int], sq) == (
            (bit(v.occupancy_by_color[c2.idx() as int], sq)
                && !(c2 == v.side_to_move && sq == mv_from(m))
                && !(has_flag(m, FLAG_EN_PASSANT) && c2 == v.side_to_move.other() && sq == cs_of(v, m))
                && !(!has_flag(m, FLAG_EN_PASSANT) && has_flag(m, FLAG_CAPTURE) && captured_of(v, m) is Some && c2 == v.side_to_move.other() && sq == mv_to(m))
                && !(castles(v, m) && c2 == v.side_to_move && sq == rook_from(v, m)))
            || (c2 == v.side_to_move && sq == mv_to(m))
            || (castles(v, m) && c2 == v.side_to_move && sq == rook_to(v, m))),
{
    reveal(make_pieces);
    reveal(make_captured);
    reveal(make_lifted);
    let mover = v.side_to_move;
    let enemy = mover.other();
    let from = mv_from(m);
    let to = mv_to(m);
    crate::move_descriptions::lemma_field_bounds(m);
    let moved = moved_of(v, m);
    let placed = placed_kind(m, moved);
    let u = undo_for(v, m, moved, captured_of(v, m));
    let pushed = GameStateView { undo_stack: v.undo_stack.push(u), ..v };
    let a = make_lifted(v, m);
    let b = make_captured(v, m);
    crate::game_state::lemma_removed_bits(pushed, mover, moved, from);
    let cs = cs_of(v, m);
    let ck = captured_of(v, m);
    if has_flag(m, FLAG_EN_PASSANT) {
        crate::game_state::lemma_removed_bits(a, enemy, PieceKind::Pawn, cs);
    } else if has_flag(m, FLAG_CAPTURE) && ck is Some {
        crate::game_state::lemma_removed_bits(a, enemy, ck.unwrap(), to);
    }
    let c0 = b.added(mover, placed, to);
    crate::game_state::lemma_added_bits(b, mover, placed, to);
    if castles(v, m) {
        let rf = rook_from(v, m);
        let rt = rook_to(v, m);
        crate::game_state::lemma_removed_bits(c0, mover, PieceKind::Rook, rf);
        crate::game_state::lemma_added_bits(c0.removed(mover, PieceKind::Rook, rf), mover, PieceKind::Rook, rt);
    }
}

/// Which occupancy squares unmaking sets.
proof fn lemma_unmake_occ_bits(d: GameStateView)
    requires
        d.undo_stack.len() > 0,
        !unmake_overflows(d),
        !unmake_fails_late(d),
    ensures
        ({
            let u = top_undo(d);
            let mover = u.prev_side_to_move;
            let mv = u.mv as u64;
            let cst = has_flag(mv, FLAG_CASTLING) && u.moved_piece == PieceKind::King && castle_rook(mover, mv_from(mv), mv_to(mv)) is Some;
            let rf = castle_rook(mover, mv_from(mv), mv_to(mv)).unwrap().0;
            let rt = castle_rook(mover, mv_from(mv), mv_to(mv)).unwrap().1;
            let cs = ep_capture_square(mover, mv_to(mv)).unwrap();
            forall|c2: Color, sq: u64|
                sq < 64 ==> #[trigger] bit(unmake_restored(d).occupancy_by_color[c2.idx() as int], sq) == (
                (bit(d.occupancy_by_color[c2.idx() as int], sq)
                    && !(c2 == mover && sq == mv_to(mv))
                    && !(cst && c2 == mover && sq == rt))
                || (c2 == mover && sq == mv_from(mv))
                || (cst && c2 == mover && sq == rf)
                || (has_flag(mv, FLAG_EN_PASSANT) && c2 == mover.other() && sq == cs)
                || (!has_flag(mv, FLAG_EN_PASSANT) && u.captured_piece is Some && c2 == mover.other() && sq == mv_to(mv)))
        }),
{
    reveal(unmake_restored);
    reveal(unmake_moved_back);
    let u = top_undo(d);
    let mover = u.prev_side_to_move;
    let mv = u.mv as u64;
    crate::move_descriptions::lemma_field_bounds(mv);
    let from = mv_from(mv);
    let to = mv_to(mv);
    let placed = placed_kind(mv, u.moved_piece);
    let s1 = GameStateView { undo_stack: d.undo_stack.drop_last(), side_to_move: mover, ..d };
    crate::game_state::lemma_removed_bits(s1, mover, placed, to);
    crate::game_state::lemma_added_bits(s1.removed(mover, placed, to), mover, u.moved_piece, from);
    let e0 = s1.removed(mover, placed, to).added(mover, u.moved_piece, from);
    let cst = has_flag(mv, FLAG_CASTLING) && u.moved_piece == PieceKind::King && castle_rook(mover, from, to) is Some;
    if cst {
        let rf = castle_rook(mover, from, to).unwrap().0;
        let rt = castle_rook(mover, from, to).unwrap().1;
        crate::game_state::lemma_removed_bits(e0, mover, PieceKind::Rook, rt);
        crate::game_state::lemma_added_bits(e0.removed(mover, PieceKind::Rook, rt), mover, PieceKind::Rook, rf);
    }
    let e = unmake_moved_back(d);
    if has_flag(mv, FLAG_EN_PASSANT) {
        crate::game_state::lemma_added_bits(e, mover.other(), PieceKind::Pawn, ep_capture_square(mover, to).unwrap());
    } else if u.captured_piece is Some {
        crate::game_state::lemma_added_bits(e, mover.other(), u.captured_piece.unwrap(), to);
    }
}

/// Occupancy caches come back after make then unmake.
#[verifier::spinoff_prover]
#[verifier::rlimit(100)]
proof fn lemma_roundtrip_occupancy(v: GameStateView, m: u64)
    requires
        v.wf(),
        reversible(v, m),
    ensures
        unmake_restored(made(v, m)).occupancy_by_color == v.occupancy_by_color,
{
    reveal(made);
    let from = mv_from(m);
    let to = mv_to(m);
    crate::move_descriptions::lemma_field_bounds(m);
    lemma_made_undo(v, m);
    let d = made(v, m);
    let f = unmake_restored(d);
    lemma_occupant_unique(v, from);
    lemma_occupant_unique(v, to);
    if has_flag(m, FLAG_EN_PASSANT) {
        lemma_occupant_unique(v, cs_of(v, m));
    }
    if castles(v, m) {
        lemma_occupant_unique(v, rook_from(v, m));
        lemma_occupant_unique(v, rook_to(v, m));
    }
    lemma_make_occ_bits(v, m);
    lemma_unmake_occ_bits(d);
    assert forall|c2: Color, sq: u64| sq < 64 implies #[trigger] bit(f.occupancy_by_color[c2.idx() as int], sq) == bit(v.occupancy_by_color[c2.idx() as int], sq) by {
        assert(bit(d.occupancy_by_color[c2.idx() as int], sq) == bit(make_pieces(v, m).occupancy_by_color[c2.idx() as int], sq));
        assert(bit(v.occupancy_by_color[c2.idx() as int], sq) <==> v.kind_at(c2, sq) is Some);
    }
    crate::game_state::lemma_occupancy_ext(f, v);
}

/// Make then unmake is the identity on reversible moves in well-formed
/// states: `unmake_move_in_place` after `make_move_in_place` gives back the
/// position, flags, clocks, keys, history and undo stack.
pub proof fn lemma_make_unmake_roundtrip(v: GameStateView, m: u64)
    requires
        v.wf(),
        reversible(v, m),
        v.repetition_history.len() <= usize::MAX,
    ensures
        makeable(v, m),
        !make_overflows(v, m),
        !make_fails_late(v, m),
        made(v, m).undo_stack.len() > 0,
        !unmake_overflows(made(v, m)),
        !unmake_fails_late(made(v, m)),
        unmade(made(v, m)) == v,
{
    reveal(made);
    reveal(unmade);
    lemma_make_frame(v, m);
    lemma_unmake_frame(made(v, m));
    lemma_made_undo(v, m);
    lemma_roundtrip_pieces(v, m);
    lemma_roundtrip_occupancy(v, m);
    let d = made(v, m);
    let g = unmade(d);
    assert forall|sq: u64| sq < 64 implies bit(v.occupancy_all, sq) == bit(v.occupancy_by_color[0] | v.occupancy_by_color[1], sq) by {
        crate::bits::lemma_bit_ops(v.occupancy_by_color[0], v.occupancy_by_color[1], sq);
    }
    crate::bits::lemma_bits_ext(v.occupancy_all, v.occupancy_by_color[0] | v.occupancy_by_color[1]);
    assert(d.repetition_history.subrange(0, v.repetition_history.len() as int) =~= v.repetition_history);
    assert(d.undo_stack.drop_last() =~= v.undo_stack);
    assert(g =~= v);
}

/// The en-passant capture square of a move (meaningful for en-passant
/// moves that stay on the board).
pub open spec fn cs_of(v: GameStateView, m: u64) -> u64 {
    match ep_capture_square(v.side_to_move, mv_to(m)) {
        Some(x) => x,
        None => 0,
    }
}


/// The counters after making a move: a capture (capture flag set) or a
/// pawn move resets the fifty-move counter to 0, any other move counts it
/// up by one (capped at the largest `u16`); the move number grows after
/// Dark's move only; the other side is to move.
pub proof fn lemma_halfmove_clock_after_make(v: GameStateView, m: u64)
    ensures
        has_flag(m, FLAG_CAPTURE) ==> made(v, m).halfmove_clock == 0,
        moved_of(v, m) == PieceKind::Pawn ==> made(v, m).halfmove_clock == 0,
        !has_flag(m, FLAG_CAPTURE) && moved_of(v, m) != PieceKind::Pawn ==> made(v, m).halfmove_clock == (
        if v.halfmove_clock < u16::MAX {
            v.halfmove_clock + 1
        } else {
            u16::MAX as int
        }),
        applied(v, m).halfmove_clock == made(v, m).halfmove_clock,
        made(v, m).side_to_move == v.side_to_move.other(),
        v.side_to_move == Color::Dark ==> made(v, m).fullmove_number == (if v.fullmove_number < u16::MAX {
            v.fullmove_number + 1
        } else {
            u16::MAX as int
        }),
        v.side_to_move == Color::Light ==> made(v, m).fullmove_number == v.fullmove_number,
{
    reveal(made);
}

} // verus!
