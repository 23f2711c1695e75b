//! Moves of the square-vector layer: a piece record, its destination, and
//! what is special about the move; read from and written as long algebraic
//! notation.

use vstd::prelude::*;
use crate::board_location::{BoardLocation, is_file_byte, is_rank_byte, square_name};
use crate::chess_errors::ChessErrors;
use crate::chess_types::{PieceKind, CASTLE_LIGHT_KINGSIDE, CASTLE_LIGHT_QUEENSIDE, CASTLE_DARK_KINGSIDE, CASTLE_DARK_QUEENSIDE};
use crate::game_state::{GameState, GameStateView};
use crate::piece_record::{PieceRecord, record_at, view_piece_at_location};
use crate::text::{trim_str, trimmed_bytes};

verus! {

/// A piece and where it goes.
#[derive(Clone, Copy, Debug)]
pub struct MoveVector {
    pub piece_at_start: PieceRecord,
    pub destination: BoardLocation,
}

/// What is special about a move.
#[derive(Clone, Copy, Debug)]
pub enum MoveTypes {
    /// A regular move or regular capture.
    Regular,
    /// En-passant capture; the captured pawn is the move's capture status.
    EnPassant,
    /// Castling; the rook's move.
    Castling(MoveVector),
    /// Promotion; the piece after promotion.
    Promote(PieceRecord),
    /// Double pawn step; the square left behind.
    DoubleStep(BoardLocation),
}

/// A move with its kind and the piece it captures, if any.
#[derive(Clone, Copy, Debug)]
pub struct MoveDescription {
    pub vector: MoveVector,
    pub move_type: MoveTypes,
    pub capture_status: Option<PieceRecord>,
}

/// The piece a promotion letter names (either case).
pub open spec fn promotion_class(b: u8) -> Option<PieceKind> {
    if b == 113 || b == 81 {
        Some(PieceKind::Queen)
    } else if b == 114 || b == 82 {
        Some(PieceKind::Rook)
    } else if b == 98 || b == 66 {
        Some(PieceKind::Bishop)
    } else if b == 110 || b == 78 {
        Some(PieceKind::Knight)
    } else {
        None
    }
}

/// The letter written for a promotion piece.
pub open spec fn promotion_letter(k: PieceKind) -> char {
    match k {
        PieceKind::Queen => 'q',
        PieceKind::Rook => 'r',
        PieceKind::Bishop => 'b',
        _ => 'n',
    }
}

/// The castling right `flag` is held.
pub open spec fn holds_right(g: GameStateView, flag: u8) -> bool {
    g.castling_rights & flag != 0
}

/// A castling move of the king `piece` to `dest`, with the rook found on
/// `rook_square` going to `rook_dest`.
pub open spec fn castling_description(
    g: GameStateView,
    piece: PieceRecord,
    dest: BoardLocation,
    capture: Option<PieceRecord>,
    rook_square: BoardLocation,
    rook_dest: BoardLocation,
) -> Result<MoveDescription, ChessErrors> {
    match record_at(g, rook_square) {
        Some(rook) => Ok(
            MoveDescription {
                vector: MoveVector { piece_at_start: piece, destination: dest },
                move_type: MoveTypes::Castling(MoveVector { piece_at_start: rook, destination: rook_dest }),
                capture_status: capture,
            },
        ),
        None => Err(ChessErrors::TryToViewOrEditEmptySquare(rook_square)),
    }
}

/// A move of `piece` to `dest` of kind `kind`.
pub open spec fn plain_description(piece: PieceRecord, dest: BoardLocation, kind: MoveTypes, capture: Option<PieceRecord>) -> MoveDescription {
    MoveDescription {
        vector: MoveVector { piece_at_start: piece, destination: dest },
        move_type: kind,
        capture_status: capture,
    }
}

/// The move read from the (trimmed) text `t` when it is not a
/// five-character promotion: king moves named `e1g1`, `e1c1`, `e8g8`,
/// `e8c8` castle while the right is held; a pawn moving across files onto
/// an empty square captures en passant the piece beside its origin; a pawn
/// moving two ranks is a double step; anything else is regular.
pub open spec fn unpromoted_description(
    t: Seq<u8>,
    g: GameStateView,
    piece: PieceRecord,
    dest: BoardLocation,
    capture: Option<PieceRecord>,
) -> Result<MoveDescription, ChessErrors> {
    let ff = t[0] - 97;
    let rf = t[1] - 49;
    let ft = t[2] - 97;
    let rt = t[3] - 49;
    if piece.class == PieceKind::King {
        if t == seq![101u8, 49, 103, 49] && holds_right(g, CASTLE_LIGHT_KINGSIDE) {
            castling_description(g, piece, dest, capture, BoardLocation::at(7, 0), BoardLocation::at(5, 0))
        } else if t == seq![101u8, 49, 99, 49] && holds_right(g, CASTLE_LIGHT_QUEENSIDE) {
            castling_description(g, piece, dest, capture, BoardLocation::at(0, 0), BoardLocation::at(3, 0))
        } else if t == seq![101u8, 56, 103, 56] && holds_right(g, CASTLE_DARK_KINGSIDE) {
            castling_description(g, piece, dest, capture, BoardLocation::at(7, 7), BoardLocation::at(5, 7))
        } else if t == seq![101u8, 56, 99, 56] && holds_right(g, CASTLE_DARK_QUEENSIDE) {
            castling_description(g, piece, dest, capture, BoardLocation::at(0, 7), BoardLocation::at(3, 7))
        } else {
            Ok(plain_description(piece, dest, MoveTypes::Regular, capture))
        }
    } else if piece.class == PieceKind::Pawn {
        if ff != ft && capture is None {
            match record_at(g, BoardLocation::at(ft, rf)) {
                Some(victim) => Ok(plain_description(piece, dest, MoveTypes::EnPassant, Some(victim))),
                None => Err(ChessErrors::TryToViewOrEditEmptySquare(BoardLocation::at(ft, rf))),
            }
        } else if rf - rt >= 2 || rt - rf >= 2 {
            Ok(plain_description(piece, dest, MoveTypes::DoubleStep(BoardLocation::at(ft, (rf + rt) / 2)), capture))
        } else {
            Ok(plain_description(piece, dest, MoveTypes::Regular, capture))
        }
    } else {
        Ok(plain_description(piece, dest, MoveTypes::Regular, capture))
    }
}

/// The long-algebraic text of a move: origin and destination square
/// names, then the promotion letter for a promotion.
pub open spec fn description_text(d: MoveDescription) -> Seq<char> {
    let from = d.vector.piece_at_start.location;
    let to = d.vector.destination;
    let base = square_name(from.file_of(), from.rank_of()) + square_name(to.file_of(), to.rank_of());
    match d.move_type {
        MoveTypes::Promote(p) => base.push(promotion_letter(p.class)),
        _ => base,
    }
}

/// The move read from trimmed long-algebraic text `t` against `g`, when
/// reading succeeds.
pub open spec fn read_description(t: Seq<u8>, g: GameStateView) -> Option<MoveDescription> {
    if !names_two_squares(t) {
        None
    } else {
        let start = BoardLocation::at(t[0] - 97, t[1] - 49);
        let dest = BoardLocation::at(t[2] - 97, t[3] - 49);
        match record_at(g, start) {
            None => None,
            Some(piece) => if t.len() == 5 {
                match promotion_class(t[4]) {
                    Some(k) => Some(
                        plain_description(
                            piece,
                            dest,
                            MoveTypes::Promote(PieceRecord { class: k, location: dest, team: piece.team }),
                            record_at(g, dest),
                        ),
                    ),
                    None => None,
                }
            } else {
                match unpromoted_description(t, g, piece, dest, record_at(g, dest)) {
                    Ok(d) => Some(d),
                    Err(_) => None,
                }
            },
        }
    }
}

/// The text a move read from `t` is written back as: the four square
/// characters as given, then the promotion letter in lower case.
pub open spec fn reread_text(t: Seq<u8>) -> Seq<char> {
    let base = seq![t[0] as char, t[1] as char, t[2] as char, t[3] as char];
    if t.len() == 5 {
        base.push(promotion_letter(promotion_class(t[4]).unwrap()))
    } else {
        base
    }
}

/// A move read from long-algebraic text is written back as the same text,
/// with a promotion letter in lower case and anything after the fifth
/// character dropped; its squares are occupied locations.
pub proof fn lemma_move_text_roundtrip(t: Seq<u8>, g: GameStateView)
    requires
        read_description(t, g) is Some,
    ensures
        description_text(read_description(t, g).unwrap()) == reread_text(t),
        read_description(t, g).unwrap().vector.piece_at_start.location.binary_location != 0,
        read_description(t, g).unwrap().vector.destination.binary_location != 0,
{
    let f0 = t[0] - 97;
    let r0 = t[1] - 49;
    let f1 = t[2] - 97;
    let r1 = t[3] - 49;
    crate::board_location::lemma_location_name_roundtrip(f0, r0);
    crate::board_location::lemma_location_name_roundtrip(f1, r1);
    let d = read_description(t, g).unwrap();
    assert(d.vector.piece_at_start.location == BoardLocation::at(f0, r0));
    assert(d.vector.destination == BoardLocation::at(f1, r1));
    assert(square_name(f0, r0) + square_name(f1, r1) =~= seq![t[0] as char, t[1] as char, t[2] as char, t[3] as char]);
}

/// The first four bytes name two squares.
pub open spec fn names_two_squares(t: Seq<u8>) -> bool {
    t.len() >= 4 && is_file_byte(t[0]) && is_file_byte(t[2]) && is_rank_byte(t[1]) && is_rank_byte(t[3])
}

impl MoveDescription {
    /// The move in long algebraic notation: origin and destination square
    /// names, then the promotion letter for a promotion.
    pub fn get_long_algebraic(&self) -> (r: String)
        requires
            self.vector.piece_at_start.location.binary_location != 0,
            self.vector.destination.binary_location != 0,
        ensures
            r@ == description_text(*self),
    {
        let mut s = self.vector.piece_at_start.location.to_long_algebraic();
        let to = self.vector.destination.to_long_algebraic();
        s.append(to.as_str());
        if let MoveTypes::Promote(p) = self.move_type {
            let letter = match p.class {
                PieceKind::Queen => "q",
                PieceKind::Rook => "r",
                PieceKind::Bishop => "b",
                _ => "n",
            };
            proof {
                reveal_strlit("q");
                reveal_strlit("r");
                reveal_strlit("b");
                reveal_strlit("n");
            }
            s.append(letter);
        }
        s
    }

    /// Read a move in long algebraic notation (`e2e4`, `e7e8q`) against a
    /// position; surrounding whitespace is ignored.
    ///
    /// Fails on text shorter than four characters or with a promotion
    /// letter that names no piece (carrying the text), on a byte that is
    /// not a file or rank where one is needed (carrying that byte), and
    /// when the origin, a castling rook's square, or the square of a pawn
    /// taken en passant is empty (carrying that square).
    pub fn from_long_algebraic(long_algebraic_str: &str, game: &GameState) -> (r: Result<Self, ChessErrors>)
        ensures
            r is Ok <==> read_description(trimmed_bytes(long_algebraic_str), game@) is Some,
            r matches Ok(d) ==> read_description(trimmed_bytes(long_algebraic_str), game@) == Some(d),
            ({
                let t = trimmed_bytes(long_algebraic_str);
                let start = BoardLocation::at(t[0] - 97, t[1] - 49);
                let dest = BoardLocation::at(t[2] - 97, t[3] - 49);
                &&& t.len() < 4 ==> (r matches Err(ChessErrors::InvalidAlgebraicString(e)) && e@ == long_algebraic_str@)
                &&& t.len() >= 4 && !is_file_byte(t[0]) ==> r == Err::<Self, ChessErrors>(ChessErrors::InvalidAlgebraicChar(t[0] as char))
                &&& t.len() >= 4 && is_file_byte(t[0]) && !is_file_byte(t[2]) ==> r == Err::<Self, ChessErrors>(ChessErrors::InvalidAlgebraicChar(t[2] as char))
                &&& t.len() >= 4 && is_file_byte(t[0]) && is_file_byte(t[2]) && !is_rank_byte(t[1]) ==> r == Err::<Self, ChessErrors>(ChessErrors::InvalidAlgebraicChar(t[1] as char))
                &&& t.len() >= 4 && is_file_byte(t[0]) && is_file_byte(t[2]) && is_rank_byte(t[1]) && !is_rank_byte(t[3]) ==> r == Err::<Self, ChessErrors>(ChessErrors::InvalidAlgebraicChar(t[3] as char))
                &&& names_two_squares(t) && record_at(game@, start) is None ==> r == Err::<Self, ChessErrors>(ChessErrors::TryToViewOrEditEmptySquare(start))
                &&& names_two_squares(t) && record_at(game@, start) is Some && t.len() == 5 && promotion_class(t[4]) is None ==> (r matches Err(ChessErrors::InvalidAlgebraicString(e)) && e@ == long_algebraic_str@)
                &&& names_two_squares(t) && record_at(game@, start) is Some && t.len() == 5 && promotion_class(t[4]) is Some ==> r == Ok::<Self, ChessErrors>(plain_description(
                    record_at(game@, start).unwrap(),
                    dest,
                    MoveTypes::Promote(PieceRecord { class: promotion_class(t[4]).unwrap(), location: dest, team: record_at(game@, start).unwrap().team }),
                    record_at(game@, dest),
                ))
                &&& names_two_squares(t) && record_at(game@, start) is Some && t.len() != 5 ==> r == unpromoted_description(t, game@, record_at(game@, start).unwrap(), dest, record_at(game@, dest))
            }),
    {
        let x = trim_str(long_algebraic_str);
        let bytes = x.as_bytes();
        let n = bytes.len();
        if n < 4 {
            return Err(ChessErrors::InvalidAlgebraicString(long_algebraic_str.to_owned()));
        }
        let b0 = bytes[0];
        if b0 < 97 || b0 > 104 {
            return Err(ChessErrors::InvalidAlgebraicChar(b0 as char));
        }
        let b2 = bytes[2];
        if b2 < 97 || b2 > 104 {
            return Err(ChessErrors::InvalidAlgebraicChar(b2 as char));
        }
        let b1 = bytes[1];
        if b1 < 49 || b1 > 56 {
            return Err(ChessErrors::InvalidAlgebraicChar(b1 as char));
        }
        let b3 = bytes[3];
        if b3 < 49 || b3 > 56 {
            return Err(ChessErrors::InvalidAlgebraicChar(b3 as char));
        }
        let file_from = b0 - 97;
        let rank_from = b1 - 49;
        let file_to = b2 - 97;
        let rank_to = b3 - 49;
        let start = BoardLocation::from_file_rank(file_from, rank_from)?;
        let destination = BoardLocation::from_file_rank(file_to, rank_to)?;
        let piece_at_start = view_piece_at_location(game, start)?;
        let vector = MoveVector { piece_at_start, destination };
        let capture_status = match view_piece_at_location(game, destination) {
            Ok(p) => Some(p),
            Err(_) => None,
        };
        if n == 5 {
            let b4 = bytes[4];
            let class = if b4 == 113 || b4 == 81 {
                PieceKind::Queen
            } else if b4 == 114 || b4 == 82 {
                PieceKind::Rook
            } else if b4 == 98 || b4 == 66 {
                PieceKind::Bishop
            } else if b4 == 110 || b4 == 78 {
                PieceKind::Knight
            } else {
                return Err(ChessErrors::InvalidAlgebraicString(long_algebraic_str.to_owned()));
            };
            return Ok(MoveDescription {
                vector,
                move_type: MoveTypes::Promote(PieceRecord { class, location: destination, team: piece_at_start.team }),
                capture_status,
            });
        }
        if matches!(piece_at_start.class, PieceKind::King) {
            let rights = game.castling_rights;
            let named = |f0: u8, r0: u8, f1: u8, r1: u8| -> (b: bool)
                ensures
                    b == (bytes@ == seq![f0, r0, f1, r1]),
                {
                    proof {
                        if bytes@ == seq![f0, r0, f1, r1] {
                            assert(bytes@.len() == 4);
                        }
                    }
                    if n == 4 && bytes[0] == f0 && bytes[1] == r0 && bytes[2] == f1 && bytes[3] == r1 {
                        assert(bytes@ =~= seq![f0, r0, f1, r1]);
                        true
                    } else {
                        false
                    }
                };
            if named(101, 49, 103, 49) && rights & CASTLE_LIGHT_KINGSIDE != 0 {
                let rook_square = BoardLocation::from_file_rank(7, 0)?;
                let rook = view_piece_at_location(game, rook_square)?;
                return Ok(MoveDescription {
                    vector,
                    move_type: MoveTypes::Castling(MoveVector { piece_at_start: rook, destination: BoardLocation::from_file_rank(5, 0)? }),
                    capture_status,
                });
            } else if named(101, 49, 99, 49) && rights & CASTLE_LIGHT_QUEENSIDE != 0 {
                let rook_square = BoardLocation::from_file_rank(0, 0)?;
                let rook = view_piece_at_location(game, rook_square)?;
                return Ok(MoveDescription {
                    vector,
                    move_type: MoveTypes::Castling(MoveVector { piece_at_start: rook, destination: BoardLocation::from_file_rank(3, 0)? }),
                    capture_status,
                });
            } else if named(101, 56, 103, 56) && rights & CASTLE_DARK_KINGSIDE != 0 {
                let rook_square = BoardLocation::from_file_rank(7, 7)?;
                let rook = view_piece_at_location(game, rook_square)?;
                return Ok(MoveDescription {
                    vector,
                    move_type: MoveTypes::Castling(MoveVector { piece_at_start: rook, destination: BoardLocation::from_file_rank(5, 7)? }),
                    capture_status,
                });
            } else if named(101, 56, 99, 56) && rights & CASTLE_DARK_QUEENSIDE != 0 {
                let rook_square = BoardLocation::from_file_rank(0, 7)?;
                let rook = view_piece_at_location(game, rook_square)?;
                return Ok(MoveDescription {
                    vector,
                    move_type: MoveTypes::Castling(MoveVector { piece_at_start: rook, destination: BoardLocation::from_file_rank(3, 7)? }),
                    capture_status,
                });
            }
            return Ok(MoveDescription { vector, move_type: MoveTypes::Regular, capture_status });
        }
        if matches!(piece_at_start.class, PieceKind::Pawn) {
            if file_from != file_to && capture_status.is_none() {
                let behind = BoardLocation::from_file_rank(file_to, rank_from)?;
                let victim = view_piece_at_location(game, behind)?;
                return Ok(MoveDescription { vector, move_type: MoveTypes::EnPassant, capture_status: Some(victim) });
            }
            let rank_diff: i8 = if rank_from >= rank_to {
                (rank_from - rank_to) as i8
            } else {
                (rank_to - rank_from) as i8
            };
            if rank_diff >= 2 {
                let left_behind = BoardLocation::from_file_rank(file_to, (rank_from + rank_to) / 2)?;
                return Ok(MoveDescription { vector, move_type: MoveTypes::DoubleStep(left_behind), capture_status });
            }
            return Ok(MoveDescription { vector, move_type: MoveTypes::Regular, capture_status });
        }
        Ok(MoveDescription { vector, move_type: MoveTypes::Regular, capture_status })
    }
}

} // verus!
