//! Writing a position as Forsyth-Edwards Notation.

use vstd::prelude::*;
use crate::chess_types::{Color, PieceKind, Square};
use crate::game_state::{GameState, GameStateView};
use crate::legal_move_shared::piece_on_square_any;
use crate::text::{append_decimal, decimal_chars, digit_str, file_letter};

verus! {

/// The FEN letter of a piece: upper case for Light, lower case for Dark.
pub open spec fn piece_char(c: Color, k: PieceKind) -> char {
    match (c, k) {
        (Color::Light, PieceKind::Pawn) => 'P',
        (Color::Light, PieceKind::Knight) => 'N',
        (Color::Light, PieceKind::Bishop) => 'B',
        (Color::Light, PieceKind::Rook) => 'R',
        (Color::Light, PieceKind::Queen) => 'Q',
        (Color::Light, PieceKind::King) => 'K',
        (Color::Dark, PieceKind::Pawn) => 'p',
        (Color::Dark, PieceKind::Knight) => 'n',
        (Color::Dark, PieceKind::Bishop) => 'b',
        (Color::Dark, PieceKind::Rook) => 'r',
        (Color::Dark, PieceKind::Queen) => 'q',
        (Color::Dark, PieceKind::King) => 'k',
    }
}

/// The digit for a run of `n` empty squares (nothing for none).
pub open spec fn gap_text(n: nat) -> Seq<char> {
    if n > 0 {
        seq![(n + 48) as char]
    } else {
        Seq::empty()
    }
}

/// The text of rank `r` from file `f`, with `empty` empty squares pending.
pub open spec fn rank_text(v: GameStateView, r: int, f: int, empty: nat) -> Seq<char>
    decreases 8 - f,
{
    if f >= 8 {
        gap_text(empty)
    } else {
        match v.occupant((8 * r + f) as u64) {
            Some((c, k)) => gap_text(empty) + seq![piece_char(c, k)] + rank_text(v, r, f + 1, 0),
            None => rank_text(v, r, f + 1, (empty + 1) as nat),
        }
    }
}

/// The placement text of ranks `r` down to 1, separated by `/`.
pub open spec fn placement_text(v: GameStateView, r: int) -> Seq<char>
    decreases r,
{
    if r <= 0 {
        rank_text(v, 0, 0, 0)
    } else {
        rank_text(v, r, 0, 0) + seq!['/'] + placement_text(v, r - 1)
    }
}

/// The castling field: `-`, or the held rights among `KQkq`.
pub open spec fn castling_text(r: u8) -> Seq<char> {
    if r & 15 == 0 {
        seq!['-']
    } else {
        (if r & 1 != 0 { seq!['K'] } else { Seq::empty() }) + (if r & 2 != 0 {
            seq!['Q']
        } else {
            Seq::empty()
        }) + (if r & 4 != 0 { seq!['k'] } else { Seq::empty() }) + (if r & 8 != 0 {
            seq!['q']
        } else {
            Seq::empty()
        })
    }
}

/// The en-passant field: `-`, or the square's name.
pub open spec fn ep_text(ep: Option<Square>) -> Seq<char> {
    match ep {
        Some(s) => seq![((s % 8) + 97) as char, ((s / 8) + 49) as char],
        None => seq!['-'],
    }
}

/// The FEN text of a position.
pub open spec fn fen_of(v: GameStateView) -> Seq<char> {
    placement_text(v, 7) + seq![' '] + (if v.side_to_move == Color::Light {
        seq!['w']
    } else {
        seq!['b']
    }) + seq![' '] + castling_text(v.castling_rights) + seq![' '] + ep_text(v.en_passant_square)
        + seq![' '] + decimal_chars(v.halfmove_clock as nat) + seq![' '] + decimal_chars(
        v.fullmove_number as nat,
    )
}

/// The one-letter string of a piece.
fn piece_str(c: Color, k: PieceKind) -> (r: &'static str)
    ensures
        r@ == seq![piece_char(c, k)],
{
    proof {
        reveal_strlit("P");
        reveal_strlit("N");
        reveal_strlit("B");
        reveal_strlit("R");
        reveal_strlit("Q");
        reveal_strlit("K");
        reveal_strlit("p");
        reveal_strlit("n");
        reveal_strlit("b");
        reveal_strlit("r");
        reveal_strlit("q");
        reveal_strlit("k");
    }
    match (c, k) {
        (Color::Light, PieceKind::Pawn) => "P",
        (Color::Light, PieceKind::Knight) => "N",
        (Color::Light, PieceKind::Bishop) => "B",
        (Color::Light, PieceKind::Rook) => "R",
        (Color::Light, PieceKind::Queen) => "Q",
        (Color::Light, PieceKind::King) => "K",
        (Color::Dark, PieceKind::Pawn) => "p",
        (Color::Dark, PieceKind::Knight) => "n",
        (Color::Dark, PieceKind::Bishop) => "b",
        (Color::Dark, PieceKind::Rook) => "r",
        (Color::Dark, PieceKind::Queen) => "q",
        (Color::Dark, PieceKind::King) => "k",
    }
}

/// Append the digit of a pending run of empty squares, if any.
fn append_gap(s: &mut String, n: u8)
    requires
        n <= 8,
    ensures
        final(s)@ == old(s)@ + gap_text(n as nat),
{
    if n > 0 {
        s.append(digit_str(n));
    } else {
        proof {
            assert(old(s)@ + gap_text(n as nat) =~= old(s)@);
        }
    }
}

/// Append the text of rank `r`.
fn append_rank(s: &mut String, game_state: &GameState, r: u8)
    requires
        r < 8,
    ensures
        final(s)@ == old(s)@ + rank_text(game_state@, r as int, 0, 0),
{
    let ghost target = old(s)@ + rank_text(game_state@, r as int, 0, 0);
    let mut empty: u8 = 0;
    let mut f: u8 = 0;
    while f < 8
        invariant
            f <= 8,
            r < 8,
            empty <= f,
            s@ + rank_text(game_state@, r as int, f as int, empty as nat) == target,
        decreases 8 - f,
    {
        let ghost before = s@;
        let ghost e0 = empty;
        match piece_on_square_any(game_state, 8 * r + f) {
            Some((c, k)) => {
                append_gap(s, empty);
                s.append(piece_str(c, k));
                empty = 0;
                proof {
                    let rest = rank_text(game_state@, r as int, f + 1, 0);
                    assert(before + rank_text(game_state@, r as int, f as int, e0 as nat) =~= before + (
                    gap_text(e0 as nat) + seq![piece_char(c, k)] + rest));
                    assert(s@ + rest =~= before + (gap_text(e0 as nat) + seq![piece_char(c, k)]
                        + rest));
                }
            },
            None => {
                empty = empty + 1;
            },
        }
        f = f + 1;
    }
    let ghost before = s@;
    append_gap(s, empty);
    proof {
        assert(s@ =~= before + rank_text(game_state@, r as int, 8, empty as nat));
    }
}

/// Append a piece of fixed text.
fn append_str(s: &mut String, t: &str)
    ensures
        final(s)@ == old(s)@ + t@,
{
    s.append(t);
}

/// Append the placement text (ranks 8 down to 1).
fn append_placement(s: &mut String, game_state: &GameState)
    ensures
        final(s)@ == old(s)@ + placement_text(game_state@, 7),
{
    proof {
        reveal_strlit("/");
    }
    let ghost v = game_state@;
    let ghost start = s@;
    let mut r: u8 = 7;
    append_rank(s, game_state, 7);
    while r > 0
        invariant
            r <= 7,
            s@ + (if r > 0 { seq!['/'] + placement_text(v, r - 1) } else { Seq::empty() }) == start
                + placement_text(v, 7),
            v == game_state@,
        decreases r,
    {
        let ghost before = s@;
        append_str(s, "/");
        append_rank(s, game_state, r - 1);
        proof {
            reveal_strlit("/");
            let rest = if r - 1 > 0 {
                seq!['/'] + placement_text(v, r - 2)
            } else {
                Seq::empty()
            };
            assert(placement_text(v, r - 1) == rank_text(v, r - 1, 0, 0) + rest);
            assert(s@ + rest =~= before + (seq!['/'] + placement_text(v, r - 1)));
        }
        r = r - 1;
    }
    proof {
        assert(s@ =~= start + placement_text(v, 7));
    }
}

/// Append the castling field.
fn append_castling(s: &mut String, rights: u8)
    ensures
        final(s)@ == old(s)@ + castling_text(rights),
{
    proof {
        reveal_strlit("-");
        reveal_strlit("K");
        reveal_strlit("Q");
        reveal_strlit("k");
        reveal_strlit("q");
    }
    let ghost start = s@;
    if rights & 15 == 0 {
        append_str(s, "-");
    } else {
        if rights & 1 != 0 {
            append_str(s, "K");
        }
        if rights & 2 != 0 {
            append_str(s, "Q");
        }
        if rights & 4 != 0 {
            append_str(s, "k");
        }
        if rights & 8 != 0 {
            append_str(s, "q");
        }
    }
    proof {
        assert(s@ =~= start + castling_text(rights));
    }
}

/// Append the en-passant field.
fn append_ep(s: &mut String, ep: Option<Square>)
    requires
        ep matches Some(e) ==> e < 64,
    ensures
        final(s)@ == old(s)@ + ep_text(ep),
{
    proof {
        reveal_strlit("-");
    }
    let ghost start = s@;
    match ep {
        Some(sq) => {
            append_str(s, file_letter(sq % 8));
            append_str(s, digit_str(sq / 8 + 1));
        },
        None => append_str(s, "-"),
    }
    proof {
        assert(s@ =~= start + ep_text(ep));
    }
}

/// The FEN text of a position.
pub fn generate_fen(game_state: &GameState) -> (r: String)
    requires
        game_state.en_passant_square matches Some(e) ==> e < 64,
    ensures
        r@ == fen_of(game_state@),
{
    proof {
        reveal_strlit(" ");
        reveal_strlit("w");
        reveal_strlit("b");
    }
    let ghost v = game_state@;
    let mut s = String::new();
    append_placement(&mut s, game_state);
    append_str(&mut s, " ");
    match game_state.side_to_move {
        Color::Light => append_str(&mut s, "w"),
        Color::Dark => append_str(&mut s, "b"),
    }
    append_str(&mut s, " ");
    append_castling(&mut s, game_state.castling_rights);
    append_str(&mut s, " ");
    append_ep(&mut s, game_state.en_passant_square);
    append_str(&mut s, " ");
    append_decimal(&mut s, game_state.halfmove_clock as u64);
    append_str(&mut s, " ");
    append_decimal(&mut s, game_state.fullmove_number as u64);
    proof {
        assert(s@ =~= fen_of(v));
    }
    s
}

impl GameState {
    /// The FEN text of the position.
    pub fn get_fen(&self) -> (r: String)
        requires
            self.en_passant_square matches Some(e) ==> e < 64,
        ensures
            r@ == fen_of(self@),
    {
        generate_fen(self)
    }
}

} // verus!
