//! Reading a position from Forsyth-Edwards Notation.
//!
//! The text is split at ASCII whitespace; the first six fields are read:
//! piece placement (ranks from 8 down to 1, `/` moving one rank down,
//! digits skipping files, files wrapping past `h`), side to move (its first
//! character, `w` or `b`), castling rights (`KQkq` or `-`), en-passant
//! square (`-` or a square name), halfmove clock and fullmove number
//! (unsigned 16-bit decimals, an optional leading `+`). Later fields are
//! ignored. A piece placed on an occupied square replaces what was there.

use vstd::prelude::*;
use crate::bits::bit;
use crate::chess_types::{
    Color, PieceKind, Square, CASTLE_DARK_KINGSIDE, CASTLE_DARK_QUEENSIDE, CASTLE_LIGHT_KINGSIDE,
    CASTLE_LIGHT_QUEENSIDE,
};
use crate::game_state::{GameState, GameStateView};
use crate::board_location::{BoardLocation, is_file_byte, is_rank_byte};
use crate::chess_errors::ChessErrors;
use crate::info_line_scan::chars_of;
use crate::text::trim_chars;
use crate::zobrist::{compute_pawn_zobrist_key, compute_zobrist_key, pawn_zobrist_of, zobrist_of};

verus! {

/// ASCII whitespace: space, tab, line feed, form feed, carriage return.
pub open spec fn is_ascii_ws(b: u8) -> bool {
    b == 32 || b == 9 || b == 10 || b == 12 || b == 13
}

/// The whitespace-separated fields of `s` from index `i`, where `cur` holds
/// the part of the current field read so far.
pub open spec fn fields_from(s: Seq<u8>, i: int, cur: Seq<u8>) -> Seq<Seq<u8>>
    decreases s.len() - i,
{
    if i < 0 || i >= s.len() {
        if cur.len() > 0 {
            seq![cur]
        } else {
            Seq::empty()
        }
    } else if is_ascii_ws(s[i]) {
        if cur.len() > 0 {
            seq![cur] + fields_from(s, i + 1, Seq::empty())
        } else {
            fields_from(s, i + 1, Seq::empty())
        }
    } else {
        fields_from(s, i + 1, cur.push(s[i]))
    }
}

/// The whitespace-separated fields of `s`.
pub open spec fn fen_fields(s: Seq<u8>) -> Seq<Seq<u8>> {
    fields_from(s, 0, Seq::empty())
}

/// The piece a placement byte names.
pub open spec fn piece_of_byte(b: u8) -> Option<(Color, PieceKind)> {
    if b == 80 {
        Some((Color::Light, PieceKind::Pawn))
    } else if b == 78 {
        Some((Color::Light, PieceKind::Knight))
    } else if b == 66 {
        Some((Color::Light, PieceKind::Bishop))
    } else if b == 82 {
        Some((Color::Light, PieceKind::Rook))
    } else if b == 81 {
        Some((Color::Light, PieceKind::Queen))
    } else if b == 75 {
        Some((Color::Light, PieceKind::King))
    } else if b == 112 {
        Some((Color::Dark, PieceKind::Pawn))
    } else if b == 110 {
        Some((Color::Dark, PieceKind::Knight))
    } else if b == 98 {
        Some((Color::Dark, PieceKind::Bishop))
    } else if b == 114 {
        Some((Color::Dark, PieceKind::Rook))
    } else if b == 113 {
        Some((Color::Dark, PieceKind::Queen))
    } else if b == 107 {
        Some((Color::Dark, PieceKind::King))
    } else {
        None
    }
}

/// Board `[ci][ki]` after putting a piece `(c, k)` on `sq`: set on its own
/// board, cleared from every other.
pub open spec fn put_entry(p: [[u64; 6]; 2], ci: int, ki: int, c: Color, k: PieceKind, sq: u64) -> u64 {
    if ci == c.idx() && ki == k.idx() {
        p[ci][ki] | (1u64 << sq)
    } else {
        p[ci][ki] & !(1u64 << sq)
    }
}

/// The boards after putting a piece `(c, k)` on `sq`.
pub open spec fn put(p: [[u64; 6]; 2], c: Color, k: PieceKind, sq: u64) -> [[u64; 6]; 2] {
    [
        [
            put_entry(p, 0, 0, c, k, sq),
            put_entry(p, 0, 1, c, k, sq),
            put_entry(p, 0, 2, c, k, sq),
            put_entry(p, 0, 3, c, k, sq),
            put_entry(p, 0, 4, c, k, sq),
            put_entry(p, 0, 5, c, k, sq),
        ],
        [
            put_entry(p, 1, 0, c, k, sq),
            put_entry(p, 1, 1, c, k, sq),
            put_entry(p, 1, 2, c, k, sq),
            put_entry(p, 1, 3, c, k, sq),
            put_entry(p, 1, 4, c, k, sq),
            put_entry(p, 1, 5, c, k, sq),
        ],
    ]
}

/// The empty boards.
pub open spec fn no_pieces() -> [[u64; 6]; 2] {
    [[0u64, 0, 0, 0, 0, 0], [0u64, 0, 0, 0, 0, 0]]
}

/// Reading placement field `f` from index `i` at file `file`, rank `rank`
/// with boards `p` so far.
pub open spec fn place_run(f: Seq<u8>, i: int, file: int, rank: int, p: [[u64; 6]; 2]) -> Option<
    [[u64; 6]; 2],
>
    decreases f.len() - i,
{
    if i < 0 || i >= f.len() {
        Some(p)
    } else {
        let b = f[i];
        if b == 47 {
            if rank == 0 {
                None
            } else {
                place_run(f, i + 1, file, rank - 1, p)
            }
        } else if 49 <= b <= 56 {
            place_run(f, i + 1, (file + (b - 48)) % 8, rank, p)
        } else {
            match piece_of_byte(b) {
                Some((c, k)) => place_run(f, i + 1, (file + 1) % 8, rank, put(p, c, k, (8 * rank + file) as u64)),
                None => None,
            }
        }
    }
}

/// The side to move a field names by its first character.
pub open spec fn side_of(f: Seq<u8>) -> Option<Color> {
    if f.len() > 0 && f[0] == 119 {
        Some(Color::Light)
    } else if f.len() > 0 && f[0] == 98 {
        Some(Color::Dark)
    } else {
        None
    }
}

/// Reading castling field `f` from index `i` with rights `r` so far.
pub open spec fn castling_run(f: Seq<u8>, i: int, r: u8) -> Option<u8>
    decreases f.len() - i,
{
    if i < 0 || i >= f.len() {
        Some(r)
    } else {
        let b = f[i];
        if b == 75 {
            castling_run(f, i + 1, r | CASTLE_LIGHT_KINGSIDE)
        } else if b == 81 {
            castling_run(f, i + 1, r | CASTLE_LIGHT_QUEENSIDE)
        } else if b == 107 {
            castling_run(f, i + 1, r | CASTLE_DARK_KINGSIDE)
        } else if b == 113 {
            castling_run(f, i + 1, r | CASTLE_DARK_QUEENSIDE)
        } else if b == 45 {
            castling_run(f, i + 1, r)
        } else {
            None
        }
    }
}

/// The en-passant field: `-` for none, else a square name.
pub open spec fn ep_of(f: Seq<u8>) -> Option<Option<Square>> {
    if f.len() == 1 && f[0] == 45 {
        Some(None)
    } else if f.len() == 2 && 97 <= f[0] <= 104 && 49 <= f[1] <= 56 {
        Some(Some((8 * (f[1] - 49) + (f[0] - 97)) as Square))
    } else {
        None
    }
}

/// The value of the decimal digits of `f` from index `i`, after `acc`.
pub open spec fn digits_run(f: Seq<u8>, i: int, acc: int) -> Option<int>
    decreases f.len() - i,
{
    if i < 0 || i >= f.len() {
        Some(acc)
    } else if 48 <= f[i] <= 57 {
        digits_run(f, i + 1, acc * 10 + (f[i] - 48))
    } else {
        None
    }
}

/// An unsigned 16-bit decimal with an optional leading `+`.
pub open spec fn u16_of(f: Seq<u8>) -> Option<u16> {
    let start: int = if f.len() > 0 && f[0] == 43 {
        1
    } else {
        0
    };
    if f.len() <= start {
        None
    } else {
        match digits_run(f, start, 0) {
            Some(v) => if v <= 65535 {
                Some(v as u16)
            } else {
                None
            },
            None => None,
        }
    }
}

/// The union of side `ci`'s six boards.
pub open spec fn side_occupancy(p: [[u64; 6]; 2], ci: int) -> u64 {
    p[ci][0] | p[ci][1] | p[ci][2] | p[ci][3] | p[ci][4] | p[ci][5]
}

/// The position with boards `p`, side to move, castling rights, en-passant
/// square and clocks, its occupancy and keys computed, at ply 0 with its
/// key as the only history entry.
pub open spec fn position_view(
    p: [[u64; 6]; 2],
    side: Color,
    rights: u8,
    ep: Option<Square>,
    halfmove: u16,
    fullmove: u16,
) -> GameStateView {
    let base = GameStateView {
        pieces: p,
        occupancy_by_color: [side_occupancy(p, 0), side_occupancy(p, 1)],
        occupancy_all: side_occupancy(p, 0) | side_occupancy(p, 1),
        side_to_move: side,
        castling_rights: rights,
        en_passant_square: ep,
        halfmove_clock: halfmove,
        fullmove_number: fullmove,
        zobrist_key: 0,
        pawn_zobrist_key: 0,
        ply: 0,
        repetition_history: Seq::empty(),
        undo_stack: Seq::empty(),
    };
    GameStateView {
        zobrist_key: zobrist_of(base),
        pawn_zobrist_key: pawn_zobrist_of(base),
        repetition_history: seq![zobrist_of(base)],
        ..base
    }
}

/// The position a FEN text (as bytes) describes, if it is well formed.
pub open spec fn fen_view(s: Seq<u8>) -> Option<GameStateView> {
    let fs = fen_fields(s);
    if fs.len() < 6 {
        None
    } else {
        match (
            place_run(fs[0], 0, 0, 7, no_pieces()),
            side_of(fs[1]),
            castling_run(fs[2], 0, 0),
            ep_of(fs[3]),
            u16_of(fs[4]),
            u16_of(fs[5]),
        ) {
            (Some(p), Some(side), Some(r), Some(ep), Some(h), Some(fm)) => Some(
                position_view(p, side, r, ep, h, fm),
            ),
            _ => None,
        }
    }
}

/// ASCII whitespace as characters: space, tab, line feed, form feed,
/// carriage return.
pub open spec fn is_ascii_ws_char(c: char) -> bool {
    c == ' ' || c == '\t' || c == '\n' || c == '\u{0C}' || c == '\r'
}

/// The character ranges `[start, end)` of the whitespace-separated fields
/// of `s` from index `i`, where the current field began at `start`.
pub open spec fn ranges_from(s: Seq<char>, i: int, start: int) -> Seq<(int, int)>
    decreases s.len() - i,
{
    if i < 0 || i >= s.len() {
        if start < s.len() {
            seq![(start, s.len() as int)]
        } else {
            Seq::empty()
        }
    } else if is_ascii_ws_char(s[i]) {
        if start < i {
            seq![(start, i)] + ranges_from(s, i + 1, i + 1)
        } else {
            ranges_from(s, i + 1, i + 1)
        }
    } else {
        ranges_from(s, i + 1, start)
    }
}

/// The character ranges of the whitespace-separated fields of `s`.
pub open spec fn field_ranges(s: Seq<char>) -> Seq<(int, int)> {
    ranges_from(s, 0, 0)
}

/// Field `k` of `s` as characters.
pub open spec fn char_field(s: Seq<char>, k: int) -> Seq<char> {
    s.subrange(field_ranges(s)[k].0, field_ranges(s)[k].1)
}

/// A piece letter of the placement field.
pub open spec fn is_piece_letter(c: char) -> bool {
    c == 'P' || c == 'N' || c == 'B' || c == 'R' || c == 'Q' || c == 'K' || c == 'p' || c == 'n'
        || c == 'b' || c == 'r' || c == 'q' || c == 'k'
}

/// The first fault of placement field `f` from index `i` at rank `rank`:
/// `Some(Some(c))` for an unknown character `c`, `Some(None)` for a rank
/// below the first, `None` when the rest reads.
pub open spec fn placement_fault(f: Seq<char>, i: int, rank: int) -> Option<Option<char>>
    decreases f.len() - i,
{
    if i < 0 || i >= f.len() {
        None
    } else if f[i] == '/' {
        if rank == 0 {
            Some(None)
        } else {
            placement_fault(f, i + 1, rank - 1)
        }
    } else if ('1' <= f[i] && f[i] <= '8') || is_piece_letter(f[i]) {
        placement_fault(f, i + 1, rank)
    } else {
        Some(Some(f[i]))
    }
}

/// The first character of castling field `f` from index `i` that is none
/// of `K`, `Q`, `k`, `q`, `-`.
pub open spec fn castling_fault(f: Seq<char>, i: int) -> Option<char>
    decreases f.len() - i,
{
    if i < 0 || i >= f.len() {
        None
    } else if f[i] == 'K' || f[i] == 'Q' || f[i] == 'k' || f[i] == 'q' || f[i] == '-' {
        castling_fault(f, i + 1)
    } else {
        Some(f[i])
    }
}

/// Text `f` names a square once trimmed: two bytes, a file letter and a
/// rank digit.
pub open spec fn square_text_ok(f: Seq<char>) -> bool {
    let tb = vstd::utf8::encode_utf8(trim_chars(f));
    tb.len() == 2 && is_file_byte(tb[0]) && is_rank_byte(tb[1])
}

/// `e` is the error of reading `f` as a square name (see
/// `BoardLocation::from_long_algebraic`).
pub open spec fn square_error_is(f: Seq<char>, e: ChessErrors) -> bool {
    let tb = vstd::utf8::encode_utf8(trim_chars(f));
    if tb.len() != 2 {
        e matches ChessErrors::InvalidAlgebraicString(t) && t@ == trim_chars(f)
    } else if !is_file_byte(tb[0]) {
        e == ChessErrors::InvalidAlgebraicChar(tb[0] as char)
    } else {
        e == ChessErrors::InvalidAlgebraicChar(tb[1] as char)
    }
}

/// `e` is the error a malformed FEN text `s` is answered with, found in
/// reading order: a placement character that is neither `/`, a digit `1`
/// to `8` nor a piece letter gives `InvalidFENtoken` with it, as does a
/// side to move not starting with `w` or `b` and a castling character
/// other than `KQkq-`; an en-passant field other than `-` that names no
/// square gives the square-name error; everything else (missing fields, a
/// ninth rank, clocks that are no unsigned 16-bit decimals) gives
/// `InvalidFEDstringForm` with the whole text.
pub open spec fn fen_error_is(s: Seq<char>, e: ChessErrors) -> bool {
    let n = field_ranges(s).len();
    let form = e matches ChessErrors::InvalidFEDstringForm(t) && t@ == s;
    if n == 0 {
        form
    } else {
        match placement_fault(char_field(s, 0), 0, 7) {
            Some(Some(c)) => e == ChessErrors::InvalidFENtoken(c),
            Some(None) => form,
            None => if n < 2 {
                form
            } else if char_field(s, 1)[0] != 'w' && char_field(s, 1)[0] != 'b' {
                e == ChessErrors::InvalidFENtoken(char_field(s, 1)[0])
            } else if n < 3 {
                form
            } else {
                match castling_fault(char_field(s, 2), 0) {
                    Some(c) => e == ChessErrors::InvalidFENtoken(c),
                    None => if n >= 4 && char_field(s, 3) != seq!['-'] && !square_text_ok(
                        char_field(s, 3),
                    ) {
                        square_error_is(char_field(s, 3), e)
                    } else {
                        form
                    },
                }
            },
        }
    }
}

/// The character ranges of the whitespace-separated fields of `cs`.
fn split_ranges(cs: &Vec<char>) -> (r: Vec<(usize, usize)>)
    ensures
        r@.len() == field_ranges(cs@).len(),
        forall|k: int| #![trigger r@[k]]
            0 <= k < r@.len() ==> r@[k].0 as int == field_ranges(cs@)[k].0 && r@[k].1 as int
                == field_ranges(cs@)[k].1 && r@[k].0 < r@[k].1 <= cs@.len(),
{
    let n = cs.len();
    let mut out: Vec<(usize, usize)> = Vec::new();
    let ghost mut done: Seq<(int, int)> = Seq::empty();
    let mut start: usize = 0;
    let mut i: usize = 0;
    while i < n
        invariant
            n == cs@.len(),
            start <= i <= n,
            done + ranges_from(cs@, i as int, start as int) == field_ranges(cs@),
            out@.len() == done.len(),
            forall|k: int| #![trigger out@[k]]
                0 <= k < out@.len() ==> out@[k].0 as int == done[k].0 && out@[k].1 as int == done[k].1
                    && out@[k].0 < out@[k].1 <= n,
        decreases n - i,
    {
        let c = cs[i];
        let ghost d0 = done;
        if c == ' ' || c == '\t' || c == '\n' || c == '\u{0C}' || c == '\r' {
            if start < i {
                out.push((start, i));
                proof {
                    done = done.push((start as int, i as int));
                    assert(ranges_from(cs@, i as int, start as int) == seq![(start as int, i as int)]
                        + ranges_from(cs@, i + 1, i + 1));
                    assert(d0 + ranges_from(cs@, i as int, start as int) =~= done + ranges_from(
                        cs@,
                        i + 1,
                        i + 1,
                    ));
                }
            }
            start = i + 1;
        }
        i = i + 1;
    }
    if start < n {
        out.push((start, n));
        proof {
            let d0 = done;
            done = done.push((start as int, n as int));
            assert(d0 + ranges_from(cs@, n as int, start as int) =~= done);
        }
    } else {
        proof {
            assert(done + ranges_from(cs@, n as int, start as int) =~= done);
        }
    }
    out
}

/// A piece letter of the placement field.
fn is_piece_letter_char(c: char) -> (r: bool)
    ensures
        r == is_piece_letter(c),
{
    c == 'P' || c == 'N' || c == 'B' || c == 'R' || c == 'Q' || c == 'K' || c == 'p' || c == 'n'
        || c == 'b' || c == 'r' || c == 'q' || c == 'k'
}

/// The error a malformed FEN text is answered with (see `fen_error_is`).
fn fen_error(fen: &str) -> (e: ChessErrors)
    ensures
        fen_error_is(fen@, e),
{
    let cs = chars_of(fen);
    let rs = split_ranges(&cs);
    let ghost s = fen@;
    if rs.len() == 0 {
        return ChessErrors::InvalidFEDstringForm(fen.to_owned());
    }
    let (a, b) = rs[0];
    assert(char_field(s, 0) =~= cs@.subrange(a as int, b as int));
    let mut rank: u8 = 7;
    let mut i: usize = a;
    while i < b
        invariant
            a <= i <= b <= cs@.len(),
            cs@ == s,
            s == fen@,
            field_ranges(s).len() >= 1,
            rank <= 7,
            char_field(s, 0) == cs@.subrange(a as int, b as int),
            placement_fault(char_field(s, 0), i - a, rank as int) == placement_fault(char_field(s, 0), 0, 7),
        decreases b - i,
    {
        let c = cs[i];
        assert(char_field(s, 0)[i - a] == c);
        if c == '/' {
            if rank == 0 {
                return ChessErrors::InvalidFEDstringForm(fen.to_owned());
            }
            rank = rank - 1;
        } else if ('1' <= c && c <= '8') || is_piece_letter_char(c) {
        } else {
            return ChessErrors::InvalidFENtoken(c);
        }
        i = i + 1;
    }
    if rs.len() < 2 {
        return ChessErrors::InvalidFEDstringForm(fen.to_owned());
    }
    let (a1, b1) = rs[1];
    assert(char_field(s, 1) =~= cs@.subrange(a1 as int, b1 as int));
    let side = cs[a1];
    if side != 'w' && side != 'b' {
        return ChessErrors::InvalidFENtoken(side);
    }
    if rs.len() < 3 {
        return ChessErrors::InvalidFEDstringForm(fen.to_owned());
    }
    let (a2, b2) = rs[2];
    assert(char_field(s, 2) =~= cs@.subrange(a2 as int, b2 as int));
    let mut j: usize = a2;
    while j < b2
        invariant
            a2 <= j <= b2 <= cs@.len(),
            cs@ == s,
            s == fen@,
            field_ranges(s).len() >= 3,
            placement_fault(char_field(s, 0), 0, 7) is None,
            char_field(s, 1)[0] == 'w' || char_field(s, 1)[0] == 'b',
            char_field(s, 2) == cs@.subrange(a2 as int, b2 as int),
            castling_fault(char_field(s, 2), j - a2) == castling_fault(char_field(s, 2), 0),
        decreases b2 - j,
    {
        let c = cs[j];
        assert(char_field(s, 2)[j - a2] == c);
        if !(c == 'K' || c == 'Q' || c == 'k' || c == 'q' || c == '-') {
            return ChessErrors::InvalidFENtoken(c);
        }
        j = j + 1;
    }
    if rs.len() >= 4 {
        let (a3, b3) = rs[3];
        assert(char_field(s, 3) =~= cs@.subrange(a3 as int, b3 as int));
        let dash = b3 - a3 == 1 && cs[a3] == '-';
        proof {
            if dash {
                assert(char_field(s, 3) =~= seq!['-']);
            } else if char_field(s, 3) == seq!['-'] {
                assert(char_field(s, 3)[0] == '-');
            }
        }
        if !dash {
            let text = fen.substring_char(a3, b3);
            match BoardLocation::from_long_algebraic(text) {
                Err(e) => {
                    return e;
                },
                Ok(_) => {},
            }
        }
    }
    ChessErrors::InvalidFEDstringForm(fen.to_owned())
}

/// Split `s` into its whitespace-separated fields.
fn split_fields(s: &[u8]) -> (r: Vec<Vec<u8>>)
    ensures
        r.deep_view() == fen_fields(s@),
{
    let mut out: Vec<Vec<u8>> = Vec::new();
    let mut cur: Vec<u8> = Vec::new();
    let mut i: usize = 0;
    while i < s.len()
        invariant
            i <= s.len(),
            out.deep_view() + fields_from(s@, i as int, cur@) == fen_fields(s@),
        decreases s.len() - i,
    {
        let b = s[i];
        let ghost before = out.deep_view();
        let ghost c0 = cur@;
        if b == 32 || b == 9 || b == 10 || b == 12 || b == 13 {
            if cur.len() > 0 {
                let done = cur;
                cur = Vec::new();
                out.push(done);
                proof {
                    assert(out[out.len() - 1]@ == c0);
                    assert(out.deep_view() =~~= before.push(c0));
                    assert(fields_from(s@, i as int, c0) == seq![c0] + fields_from(s@, i + 1, Seq::empty()));
                    assert(before + fields_from(s@, i as int, c0) =~= out.deep_view() + fields_from(
                        s@,
                        i + 1,
                        cur@,
                    ));
                }
            } else {
                proof {
                    assert(cur@ =~= Seq::<u8>::empty());
                }
            }
        } else {
            cur.push(b);
        }
        i = i + 1;
    }
    if cur.len() > 0 {
        let ghost before = out.deep_view();
        let ghost c0 = cur@;
        out.push(cur);
        proof {
            assert(out[out.len() - 1]@ == c0);
            assert(out.deep_view() =~~= before.push(c0));
            assert(before + fields_from(s@, s@.len() as int, c0) =~= out.deep_view());
        }
    } else {
        proof {
            assert(out.deep_view() + fields_from(s@, i as int, cur@) =~= out.deep_view());
        }
    }
    out
}

/// Board entry after putting a piece: set when `hit`, else cleared.
fn put_one(x: u64, hit: bool, mask: u64) -> (r: u64)
    ensures
        r == if hit {
            x | mask
        } else {
            x & !mask
        },
{
    if hit {
        x | mask
    } else {
        x & !mask
    }
}

/// Put a piece `(c, k)` on `sq`, replacing whatever stood there.
fn put_piece(p: [[u64; 6]; 2], c: Color, k: PieceKind, sq: u8) -> (r: [[u64; 6]; 2])
    requires
        sq < 64,
    ensures
        r == put(p, c, k, sq as u64),
{
    let mask = 1u64 << sq;
    let ci = c.index();
    let ki = k.index();
    let r = [
        [
            put_one(p[0][0], ci == 0 && ki == 0, mask),
            put_one(p[0][1], ci == 0 && ki == 1, mask),
            put_one(p[0][2], ci == 0 && ki == 2, mask),
            put_one(p[0][3], ci == 0 && ki == 3, mask),
            put_one(p[0][4], ci == 0 && ki == 4, mask),
            put_one(p[0][5], ci == 0 && ki == 5, mask),
        ],
        [
            put_one(p[1][0], ci == 1 && ki == 0, mask),
            put_one(p[1][1], ci == 1 && ki == 1, mask),
            put_one(p[1][2], ci == 1 && ki == 2, mask),
            put_one(p[1][3], ci == 1 && ki == 3, mask),
            put_one(p[1][4], ci == 1 && ki == 4, mask),
            put_one(p[1][5], ci == 1 && ki == 5, mask),
        ],
    ];
    proof {
        assert(r =~= put(p, c, k, sq as u64));
    }
    r
}

/// The piece a placement byte names.
fn piece_from_byte(b: u8) -> (r: Option<(Color, PieceKind)>)
    ensures
        r == piece_of_byte(b),
{
    match b {
        80 => Some((Color::Light, PieceKind::Pawn)),
        78 => Some((Color::Light, PieceKind::Knight)),
        66 => Some((Color::Light, PieceKind::Bishop)),
        82 => Some((Color::Light, PieceKind::Rook)),
        81 => Some((Color::Light, PieceKind::Queen)),
        75 => Some((Color::Light, PieceKind::King)),
        112 => Some((Color::Dark, PieceKind::Pawn)),
        110 => Some((Color::Dark, PieceKind::Knight)),
        98 => Some((Color::Dark, PieceKind::Bishop)),
        114 => Some((Color::Dark, PieceKind::Rook)),
        113 => Some((Color::Dark, PieceKind::Queen)),
        107 => Some((Color::Dark, PieceKind::King)),
        _ => None,
    }
}

/// Read the piece placement field.
fn parse_placement(f: &Vec<u8>) -> (r: Option<[[u64; 6]; 2]>)
    ensures
        r == place_run(f@, 0, 0, 7, no_pieces()),
{
    let mut p: [[u64; 6]; 2] = [[0u64, 0, 0, 0, 0, 0], [0u64, 0, 0, 0, 0, 0]];
    proof {
        assert(p =~= no_pieces());
    }
    let mut file: u8 = 0;
    let mut rank: u8 = 7;
    let mut i: usize = 0;
    while i < f.len()
        invariant
            i <= f.len(),
            file < 8,
            rank < 8,
            place_run(f@, i as int, file as int, rank as int, p) == place_run(f@, 0, 0, 7, no_pieces()),
        decreases f.len() - i,
    {
        let b = f[i];
        if b == 47 {
            if rank == 0 {
                return None;
            }
            rank = rank - 1;
        } else if 49 <= b && b <= 56 {
            file = (file + (b - 48)) % 8;
        } else {
            match piece_from_byte(b) {
                Some((c, k)) => {
                    p = put_piece(p, c, k, 8 * rank + file);
                    file = (file + 1) % 8;
                },
                None => {
                    return None;
                },
            }
        }
        i = i + 1;
    }
    Some(p)
}

/// Read the castling field.
fn parse_castling(f: &Vec<u8>) -> (r: Option<u8>)
    ensures
        r == castling_run(f@, 0, 0),
{
    let mut rights: u8 = 0;
    let mut i: usize = 0;
    while i < f.len()
        invariant
            i <= f.len(),
            castling_run(f@, i as int, rights) == castling_run(f@, 0, 0),
        decreases f.len() - i,
    {
        let b = f[i];
        if b == 75 {
            rights = rights | CASTLE_LIGHT_KINGSIDE;
        } else if b == 81 {
            rights = rights | CASTLE_LIGHT_QUEENSIDE;
        } else if b == 107 {
            rights = rights | CASTLE_DARK_KINGSIDE;
        } else if b == 113 {
            rights = rights | CASTLE_DARK_QUEENSIDE;
        } else if b != 45 {
            return None;
        }
        i = i + 1;
    }
    Some(rights)
}

/// Read the en-passant field.
fn parse_en_passant(f: &Vec<u8>) -> (r: Option<Option<Square>>)
    ensures
        r == ep_of(f@),
{
    if f.len() == 1 && f[0] == 45 {
        Some(None)
    } else if f.len() == 2 && 97 <= f[0] && f[0] <= 104 && 49 <= f[1] && f[1] <= 56 {
        Some(Some(8 * (f[1] - 49) + (f[0] - 97)))
    } else {
        None
    }
}

/// Digits read past 65535 never come back below it.
proof fn lemma_digits_grow(f: Seq<u8>, i: int, acc: int)
    requires
        acc > 65535,
    ensures
        digits_run(f, i, acc) matches Some(v) ==> v > 65535,
    decreases f.len() - i,
{
    if 0 <= i < f.len() && 48 <= f[i] <= 57 {
        lemma_digits_grow(f, i + 1, acc * 10 + (f[i] - 48));
    }
}

/// Read an unsigned 16-bit decimal field.
fn parse_u16(f: &Vec<u8>) -> (r: Option<u16>)
    ensures
        r == u16_of(f@),
{
    let start: usize = if f.len() > 0 && f[0] == 43 {
        1
    } else {
        0
    };
    if f.len() <= start {
        return None;
    }
    let mut acc: u32 = 0;
    let mut i: usize = start;
    while i < f.len()
        invariant
            start <= i <= f.len(),
            acc <= 65535,
            start == (if f@.len() > 0 && f@[0] == 43 {
                1int
            } else {
                0int
            }),
            digits_run(f@, i as int, acc as int) == digits_run(f@, start as int, 0),
        decreases f.len() - i,
    {
        let b = f[i];
        if !(48 <= b && b <= 57) {
            return None;
        }
        let next = acc * 10 + (b - 48) as u32;
        if next > 65535 {
            proof {
                lemma_digits_grow(f@, i + 1, next as int);
            }
            return None;
        }
        acc = next;
        i = i + 1;
    }
    Some(acc as u16)
}

/// Read a position from FEN; fails on malformed text (fewer than six
/// fields, an unknown placement character, a ninth rank, an unknown side,
/// castling or en-passant token, or a clock that is not an unsigned 16-bit
/// decimal).
pub fn parse_fen(fen: &str) -> (r: Result<GameState, String>)
    ensures
        r is Ok <==> fen_view(vstd::utf8::encode_utf8(fen@)) is Some,
        r matches Ok(g) ==> g@ == fen_view(vstd::utf8::encode_utf8(fen@)).unwrap(),
{
    let bytes = fen.as_bytes();
    let fields = split_fields(bytes);
    proof {
        assert(bytes@ == vstd::utf8::encode_utf8(fen@));
    }
    if fields.len() < 6 {
        return Err(String::from_str("FEN needs six fields"));
    }
    proof {
        assert(fields.deep_view()[0] == fields[0]@);
        assert(fields.deep_view()[1] == fields[1]@);
        assert(fields.deep_view()[2] == fields[2]@);
        assert(fields.deep_view()[3] == fields[3]@);
        assert(fields.deep_view()[4] == fields[4]@);
        assert(fields.deep_view()[5] == fields[5]@);
    }
    let pieces = match parse_placement(&fields[0]) {
        Some(p) => p,
        None => {
            return Err(String::from_str("invalid FEN piece placement"));
        },
    };
    let side = if fields[1].len() > 0 && fields[1][0] == 119 {
        Color::Light
    } else if fields[1].len() > 0 && fields[1][0] == 98 {
        Color::Dark
    } else {
        return Err(String::from_str("invalid FEN side to move"));
    };
    let rights = match parse_castling(&fields[2]) {
        Some(r) => r,
        None => {
            return Err(String::from_str("invalid FEN castling rights"));
        },
    };
    let ep = match parse_en_passant(&fields[3]) {
        Some(e) => e,
        None => {
            return Err(String::from_str("invalid FEN en-passant square"));
        },
    };
    let halfmove = match parse_u16(&fields[4]) {
        Some(h) => h,
        None => {
            return Err(String::from_str("invalid FEN halfmove clock"));
        },
    };
    let fullmove = match parse_u16(&fields[5]) {
        Some(f) => f,
        None => {
            return Err(String::from_str("invalid FEN fullmove number"));
        },
    };
    Ok(build_position(pieces, side, rights, ep, halfmove, fullmove))
}

/// The position with the given boards, side, rights, en-passant square and
/// clocks: occupancy and keys computed, ply 0, its key the only history
/// entry, no undo records.
pub(crate) fn build_position(
    pieces: [[u64; 6]; 2],
    side: Color,
    rights: u8,
    ep: Option<Square>,
    halfmove: u16,
    fullmove: u16,
) -> (r: GameState)
    ensures
        r@ == position_view(pieces, side, rights, ep, halfmove, fullmove),
{
    let occ_light = pieces[0][0] | pieces[0][1] | pieces[0][2] | pieces[0][3] | pieces[0][4]
        | pieces[0][5];
    let occ_dark = pieces[1][0] | pieces[1][1] | pieces[1][2] | pieces[1][3] | pieces[1][4]
        | pieces[1][5];
    let mut g = GameState {
        pieces,
        occupancy_by_color: [occ_light, occ_dark],
        occupancy_all: occ_light | occ_dark,
        side_to_move: side,
        castling_rights: rights,
        en_passant_square: ep,
        halfmove_clock: halfmove,
        fullmove_number: fullmove,
        zobrist_key: 0,
        pawn_zobrist_key: 0,
        ply: 0,
        repetition_history: Vec::new(),
        undo_stack: Vec::new(),
    };
    let z = compute_zobrist_key(&g);
    let pz = compute_pawn_zobrist_key(&g);
    g.zobrist_key = z;
    g.pawn_zobrist_key = pz;
    g.repetition_history.push(z);
    proof {
        let target = position_view(pieces, side, rights, ep, halfmove, fullmove);
        assert(g.occupancy_by_color =~= [side_occupancy(pieces, 0), side_occupancy(pieces, 1)]);
        assert(g.repetition_history@ =~= seq![z]);
        assert(g@ =~= target);
    }
    g
}

/// The boards of the initial position.
pub open spec fn start_pieces() -> [[u64; 6]; 2] {
    [
        [0xff00u64, 0x42, 0x24, 0x81, 0x08, 0x10],
        [
            0x00ff_0000_0000_0000u64,
            0x4200_0000_0000_0000,
            0x2400_0000_0000_0000,
            0x8100_0000_0000_0000,
            0x0800_0000_0000_0000,
            0x1000_0000_0000_0000,
        ],
    ]
}

/// The initial position: Light to move, all castling rights, no
/// en-passant square, move 1.
pub open spec fn start_view() -> GameStateView {
    position_view(start_pieces(), Color::Light, 15, None, 0, 1)
}

impl GameState {
    /// The initial position.
    pub fn new_game() -> (r: Self)
        ensures
            r@ == start_view(),
    {
        let pieces: [[u64; 6]; 2] = [
            [0xff00u64, 0x42, 0x24, 0x81, 0x08, 0x10],
            [
                0x00ff_0000_0000_0000u64,
                0x4200_0000_0000_0000,
                0x2400_0000_0000_0000,
                0x8100_0000_0000_0000,
                0x0800_0000_0000_0000,
                0x1000_0000_0000_0000,
            ],
        ];
        proof {
            assert(pieces =~= start_pieces());
        }
        build_position(pieces, Color::Light, 15, None, 0, 1)
    }

    /// The position a FEN text describes (see `parse_fen`); a malformed
    /// text is answered with the error that `fen_error_is` describes.
    pub fn from_fen(fen: &str) -> (r: Result<Self, ChessErrors>)
        ensures
            r is Ok <==> fen_view(vstd::utf8::encode_utf8(fen@)) is Some,
            r matches Ok(g) ==> g@ == fen_view(vstd::utf8::encode_utf8(fen@)).unwrap(),
            r matches Err(e) ==> fen_error_is(fen@, e),
    {
        match parse_fen(fen) {
            Ok(g) => Ok(g),
            Err(_) => Err(fen_error(fen)),
        }
    }
}

} // verus!
