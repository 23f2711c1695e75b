//! Coordinate moves written in and read from long algebraic notation.

use vstd::prelude::*;
use crate::board_location::BoardLocation;
use crate::chess_types::{PieceKind, CASTLE_LIGHT_KINGSIDE, CASTLE_LIGHT_QUEENSIDE, CASTLE_DARK_KINGSIDE, CASTLE_DARK_QUEENSIDE};
use crate::errors::Errors;
use crate::fen_generator::fen_of;
use crate::game_state::{GameState, GameStateView};
use crate::move_description::{promotion_class, reread_text};
use crate::text::{trim_str, trimmed_bytes};
use crate::till_collide_moves::{piece_at, view_at, SquareCoord};

verus! {

/// What is special about a coordinate move.
#[derive(Clone, Copy, Debug)]
pub enum MoveSpecialness {
    /// A plain move or capture.
    Regular,
    /// Promotion to the given kind.
    Promote(PieceKind),
    /// Castling: the rook's start and stop squares.
    Castling((SquareCoord, SquareCoord)),
    /// En-passant capture: the square of the pawn taken.
    EnPassant(SquareCoord),
}

/// A move between two coordinates.
#[derive(Clone, Copy, Debug)]
pub struct ChessMove {
    pub start: SquareCoord,
    pub stop: SquareCoord,
    pub move_specialness: MoveSpecialness,
}

/// `char::to_string` of std: the one-character string.
#[verifier::external_body]
fn char_text(c: char) -> (r: String)
    ensures
        r@ == seq![c],
{
    c.to_string()
}

/// The letter written for a promotion: `q`, `r`, `b`, `n` (and `q` for any
/// other kind).
pub open spec fn promotion_char(k: PieceKind) -> char {
    match k {
        PieceKind::Rook => 'r',
        PieceKind::Bishop => 'b',
        PieceKind::Knight => 'n',
        _ => 'q',
    }
}

/// The two characters naming a coordinate.
pub open spec fn coord_text(loc: SquareCoord) -> Seq<char> {
    seq![(loc.0 + 97) as char, (loc.1 + 49) as char]
}

/// The long-algebraic text of a coordinate move.
pub open spec fn chess_move_text(m: ChessMove) -> Seq<char> {
    coord_text(m.start) + coord_text(m.stop) + match m.move_specialness {
        MoveSpecialness::Promote(k) => seq![promotion_char(k)],
        _ => Seq::empty(),
    }
}

/// A coordinate whose characters are bytes.
pub open spec fn writable(loc: SquareCoord) -> bool {
    0 <= loc.0 <= 158 && 0 <= loc.1 <= 206
}

/// The coordinate named by a file and a rank byte.
pub open spec fn coord_of_bytes(f: u8, r: u8) -> Option<SquareCoord> {
    if 97 <= f <= 104 && 49 <= r <= 56 {
        Some(((f - 97) as i8, (r - 49) as i8))
    } else {
        None
    }
}

/// How reading long-algebraic text ends.
pub enum ChessMoveRead {
    /// The move read.
    Read(ChessMove),
    /// Malformed text.
    Invalid,
    /// No piece on the start square.
    NoPiece(SquareCoord),
}

/// Reading trimmed text `t` against position `g`: four characters naming
/// two squares (an optional fifth naming a promotion piece), with a piece
/// on the start square. King moves `e1g1`, `e1c1`, `e8g8`, `e8c8` castle
/// while the right is held; a pawn moving across files onto an empty
/// square captures en passant the pawn beside its start.
pub open spec fn chess_move_read(t: Seq<u8>, g: GameStateView) -> ChessMoveRead {
    if t.len() < 4 {
        ChessMoveRead::Invalid
    } else {
        match (coord_of_bytes(t[0], t[1]), coord_of_bytes(t[2], t[3])) {
            (Some(start), Some(stop)) => match piece_at(g, start) {
                None => ChessMoveRead::NoPiece(start),
                Some((_, k)) => if t.len() == 5 {
                    match promotion_class(t[4]) {
                        Some(p) => ChessMoveRead::Read(
                            ChessMove { start, stop, move_specialness: MoveSpecialness::Promote(p) },
                        ),
                        None => ChessMoveRead::Invalid,
                    }
                } else {
                    let special = if k == PieceKind::King {
                        if t == seq![101u8, 49, 103, 49] && g.castling_rights & CASTLE_LIGHT_KINGSIDE != 0 {
                            MoveSpecialness::Castling(((7i8, 0i8), (5i8, 0i8)))
                        } else if t == seq![101u8, 49, 99, 49] && g.castling_rights & CASTLE_LIGHT_QUEENSIDE != 0 {
                            MoveSpecialness::Castling(((0i8, 0i8), (3i8, 0i8)))
                        } else if t == seq![101u8, 56, 103, 56] && g.castling_rights & CASTLE_DARK_KINGSIDE != 0 {
                            MoveSpecialness::Castling(((7i8, 7i8), (5i8, 7i8)))
                        } else if t == seq![101u8, 56, 99, 56] && g.castling_rights & CASTLE_DARK_QUEENSIDE != 0 {
                            MoveSpecialness::Castling(((0i8, 7i8), (3i8, 7i8)))
                        } else {
                            MoveSpecialness::Regular
                        }
                    } else if k == PieceKind::Pawn && start.0 != stop.0 && piece_at(g, stop) is None {
                        MoveSpecialness::EnPassant((stop.0, start.1))
                    } else {
                        MoveSpecialness::Regular
                    };
                    ChessMoveRead::Read(ChessMove { start, stop, move_specialness: special })
                },
            },
            _ => ChessMoveRead::Invalid,
        }
    }
}

/// The coordinate named by two bytes.
fn parse_square(file: u8, rank: u8) -> (r: Result<SquareCoord, Errors>)
    ensures
        match coord_of_bytes(file, rank) {
            Some(c) => r == Ok::<SquareCoord, Errors>(c),
            None => r matches Err(Errors::InvalidAlgebraic),
        },
{
    if file < 97 || file > 104 {
        return Err(Errors::InvalidAlgebraic);
    }
    if rank < 49 || rank > 56 {
        return Err(Errors::InvalidAlgebraic);
    }
    Ok(((file - 97) as i8, (rank - 49) as i8))
}

/// Whether the bytes are exactly the four of `e?g?`-style castling text.
fn bytes_are(t: &[u8], a: u8, b: u8, c: u8, d: u8) -> (r: bool)
    ensures
        r == (t@ == seq![a, b, c, d]),
{
    if t.len() != 4 {
        return false;
    }
    let same = t[0] == a && t[1] == b && t[2] == c && t[3] == d;
    if same {
        assert(t@ =~= seq![a, b, c, d]);
    }
    same
}

impl ChessMove {
    /// The move in long algebraic notation: start and stop square names,
    /// then the promotion letter for a promotion.
    pub fn to_long_algebraic(&self, _game: &GameState) -> (r: String)
        requires
            writable(self.start),
            writable(self.stop),
        ensures
            r@ == chess_move_text(*self),
    {
        let mut s = char_text(((self.start.0 as u8) + 97) as char);
        s.append(char_text(((self.start.1 as u8) + 49) as char).as_str());
        s.append(char_text(((self.stop.0 as u8) + 97) as char).as_str());
        s.append(char_text(((self.stop.1 as u8) + 49) as char).as_str());
        if let MoveSpecialness::Promote(pc) = self.move_specialness {
            let promo = match pc {
                PieceKind::Queen => 'q',
                PieceKind::Rook => 'r',
                PieceKind::Bishop => 'b',
                PieceKind::Knight => 'n',
                _ => 'q',
            };
            s.append(char_text(promo).as_str());
        }
        proof {
            assert(s@ =~= chess_move_text(*self));
        }
        s
    }

    /// Read a move in long algebraic notation against a position;
    /// surrounding whitespace is ignored. Fails on malformed text and when
    /// no piece stands on the start square (naming that square and the
    /// position's FEN).
    pub fn from_long_algebraic(game: &GameState, x: &str) -> (r: Result<Self, Errors>)
        requires
            game.en_passant_square matches Some(e) ==> e < 64,
        ensures
            match chess_move_read(trimmed_bytes(x), game@) {
                ChessMoveRead::Read(m) => r == Ok::<Self, Errors>(m),
                ChessMoveRead::Invalid => r matches Err(Errors::InvalidAlgebraic),
                ChessMoveRead::NoPiece(c) => r matches Err(Errors::TryingToMoveNonExistantPiece((loc, fen)))
                    && loc == BoardLocation::at(c.0 as int, c.1 as int) && fen@ == fen_of(game@),
            },
    {
        let trimmed = trim_str(x);
        let bytes = trimmed.as_bytes();
        proof {
            assert(bytes@ == trimmed_bytes(x));
        }
        if bytes.len() < 4 {
            return Err(Errors::InvalidAlgebraic);
        }
        let start = parse_square(bytes[0], bytes[1])?;
        let stop = parse_square(bytes[2], bytes[3])?;
        let piece = match view_at(game, &start) {
            Some(p) => p,
            None => {
                let square = BoardLocation { binary_location: 1u64 << ((8 * start.0 + start.1) as u64) };
                return Err(Errors::TryingToMoveNonExistantPiece((square, game.get_fen())));
            },
        };
        let move_specialness = if bytes.len() == 5 {
            match bytes[4] {
                113 | 81 => MoveSpecialness::Promote(PieceKind::Queen),
                114 | 82 => MoveSpecialness::Promote(PieceKind::Rook),
                98 | 66 => MoveSpecialness::Promote(PieceKind::Bishop),
                110 | 78 => MoveSpecialness::Promote(PieceKind::Knight),
                _ => {
                    return Err(Errors::InvalidAlgebraic);
                },
            }
        } else if matches!(piece.1, PieceKind::King) {
            let rights = game.castling_rights;
            if bytes_are(bytes, 101, 49, 103, 49) && rights & CASTLE_LIGHT_KINGSIDE != 0 {
                MoveSpecialness::Castling(((7, 0), (5, 0)))
            } else if bytes_are(bytes, 101, 49, 99, 49) && rights & CASTLE_LIGHT_QUEENSIDE != 0 {
                MoveSpecialness::Castling(((0, 0), (3, 0)))
            } else if bytes_are(bytes, 101, 56, 103, 56) && rights & CASTLE_DARK_KINGSIDE != 0 {
                MoveSpecialness::Castling(((7, 7), (5, 7)))
            } else if bytes_are(bytes, 101, 56, 99, 56) && rights & CASTLE_DARK_QUEENSIDE != 0 {
                MoveSpecialness::Castling(((0, 7), (3, 7)))
            } else {
                MoveSpecialness::Regular
            }
        } else if matches!(piece.1, PieceKind::Pawn) && start.0 != stop.0 && view_at(game, &stop).is_none() {
            MoveSpecialness::EnPassant((stop.0, start.1))
        } else {
            MoveSpecialness::Regular
        };
        Ok(ChessMove { start, stop, move_specialness })
    }
}

/// A coordinate move read from long-algebraic text is written back as the
/// same text, with a promotion letter in lower case and anything after the
/// fifth character dropped.
pub proof fn lemma_chess_move_text_roundtrip(t: Seq<u8>, g: GameStateView)
    requires
        chess_move_read(t, g) is Read,
    ensures
        writable(chess_move_read(t, g)->Read_0.start),
        writable(chess_move_read(t, g)->Read_0.stop),
        chess_move_text(chess_move_read(t, g)->Read_0) == reread_text(t),
{
    let m = chess_move_read(t, g)->Read_0;
    assert(coord_text(m.start) + coord_text(m.stop) =~= seq![t[0] as char, t[1] as char, t[2] as char, t[3] as char]);
    assert(chess_move_text(m) =~= reread_text(t));
}

} // verus!
