//! Reading back what the FEN writer writes: the text `get_fen` produces
//! for a well-formed position parses to that position's board, side to
//! move, castling rights, en-passant square and clocks.

use vstd::prelude::*;
use crate::bits::{bit, lemma_bit_ops, lemma_bits_ext, lemma_mask_ops};
use crate::chess_types::{Color, PieceKind, Square};
use crate::fen_generator::{castling_text, ep_text, fen_of, gap_text, piece_char, placement_text, rank_text};
use crate::fen_parser::{
    castling_run, digits_run, ep_of, fen_fields, fen_view, fields_from, is_ascii_ws, no_pieces,
    piece_of_byte, place_run, position_view, put, side_of, u16_of,
};
use crate::game_state::GameStateView;
use crate::text::decimal_chars;

verus! {

broadcast use vstd::utf8::group_utf8_lib;

/// A character FEN fields are made of: a letter, a digit, `/` or `-`.
pub open spec fn is_token_char(c: char) -> bool {
    ||| ('0' <= c && c <= '9')
    ||| ('a' <= c && c <= 'z')
    ||| ('A' <= c && c <= 'Z')
    ||| c == '/'
    ||| c == '-'
}

/// Every character of `s` is a token character.
pub open spec fn token_text(s: Seq<char>) -> bool {
    forall|i: int| 0 <= i < s.len() ==> is_token_char(#[trigger] s[i])
}

/// The bytes of an ASCII text.
pub open spec fn bytes_of(s: Seq<char>) -> Seq<u8> {
    s.map_values(|c: char| c as u8)
}

/// Token texts concatenate.
proof fn lemma_token_concat(a: Seq<char>, b: Seq<char>)
    requires
        token_text(a),
        token_text(b),
    ensures
        token_text(a + b),
{
    assert forall|i: int| 0 <= i < (a + b).len() implies is_token_char(#[trigger] (a + b)[i]) by {
        if i < a.len() {
            assert((a + b)[i] == a[i]);
        } else {
            assert((a + b)[i] == b[i - a.len()]);
        }
    }
}

/// The bytes of a concatenation.
proof fn lemma_bytes_concat(a: Seq<char>, b: Seq<char>)
    ensures
        bytes_of(a + b) =~= bytes_of(a) + bytes_of(b),
{
}

/// The bytes of a token text are not whitespace.
proof fn lemma_token_bytes(s: Seq<char>)
    requires
        token_text(s),
    ensures
        forall|i: int| 0 <= i < s.len() ==> !is_ascii_ws(#[trigger] bytes_of(s)[i]),
        bytes_of(s).len() == s.len(),
{
    assert forall|i: int| 0 <= i < s.len() implies !is_ascii_ws(#[trigger] bytes_of(s)[i]) by {
        assert(is_token_char(s[i]));
    }
}

/// The decimal form of a number is a token text of digits.
proof fn lemma_decimal_token(n: nat)
    ensures
        token_text(decimal_chars(n)),
        decimal_chars(n).len() > 0,
        forall|i: int| 0 <= i < decimal_chars(n).len() ==> '0' <= #[trigger] decimal_chars(n)[i] <= '9',
    decreases n,
{
    if n >= 10 {
        lemma_decimal_token(n / 10);
    }
}

/// Shifting the start of a field scan past a prefix.
proof fn lemma_fields_shift(pre: Seq<u8>, b: Seq<u8>, i: int, cur: Seq<u8>)
    requires
        0 <= i,
    ensures
        fields_from(pre + b, pre.len() + i, cur) == fields_from(b, i, cur),
    decreases b.len() - i,
{
    if i < b.len() {
        assert((pre + b)[pre.len() + i] == b[i]);
        lemma_fields_shift(pre, b, i + 1, Seq::empty());
        lemma_fields_shift(pre, b, i + 1, cur.push(b[i]));
    }
}

/// Scanning through a word without whitespace collects it.
proof fn lemma_fields_word(s: Seq<u8>, w: int, i: int, cur: Seq<u8>)
    requires
        0 <= i <= w <= s.len(),
        forall|k: int| i <= k < w ==> !is_ascii_ws(#[trigger] s[k]),
    ensures
        fields_from(s, i, cur) == fields_from(s, w, cur + s.subrange(i, w)),
    decreases w - i,
{
    if i < w {
        lemma_fields_word(s, w, i + 1, cur.push(s[i]));
        assert(cur.push(s[i]) + s.subrange(i + 1, w) =~= cur + s.subrange(i, w));
    } else {
        assert(cur + s.subrange(i, w) =~= cur);
    }
}

/// Words joined by single spaces.
pub open spec fn joined(ws: Seq<Seq<u8>>) -> Seq<u8>
    decreases ws.len(),
{
    if ws.len() == 0 {
        Seq::empty()
    } else if ws.len() == 1 {
        ws[0]
    } else {
        ws[0] + seq![32u8] + joined(ws.drop_first())
    }
}

/// The fields of nonempty words without whitespace, joined by spaces, are
/// the words.
proof fn lemma_fields_joined(ws: Seq<Seq<u8>>)
    requires
        ws.len() > 0,
        forall|j: int| 0 <= j < ws.len() ==> #[trigger] ws[j].len() > 0,
        forall|j: int, k: int| 0 <= j < ws.len() && 0 <= k < ws[j].len() ==> !is_ascii_ws(#[trigger] ws[j][k]),
    ensures
        fields_from(joined(ws), 0, Seq::empty()) == ws,
    decreases ws.len(),
{
    let w = ws[0];
    let s = joined(ws);
    if ws.len() == 1 {
        lemma_fields_word(s, w.len() as int, 0, Seq::empty());
        assert(Seq::<u8>::empty() + s.subrange(0, w.len() as int) =~= w);
        assert(seq![w] =~= ws);
    } else {
        let rest = ws.drop_first();
        assert(s == w + seq![32u8] + joined(rest));
        assert forall|k: int| 0 <= k < w.len() implies !is_ascii_ws(#[trigger] s[k]) by {
            assert(s[k] == w[k]);
            assert(!is_ascii_ws(ws[0][k]));
        }
        lemma_fields_word(s, w.len() as int, 0, Seq::empty());
        assert(Seq::<u8>::empty() + s.subrange(0, w.len() as int) =~= w);
        assert(s[w.len() as int] == 32u8);
        lemma_fields_shift(w + seq![32u8], joined(rest), 0, Seq::empty());
        assert((w + seq![32u8]) + joined(rest) == s);
        assert forall|j: int| 0 <= j < rest.len() implies #[trigger] rest[j].len() > 0 by {
            assert(rest[j] == ws[j + 1]);
        }
        assert forall|j: int, k: int| 0 <= j < rest.len() && 0 <= k < rest[j].len() implies !is_ascii_ws(#[trigger] rest[j][k]) by {
            assert(rest[j] == ws[j + 1]);
        }
        lemma_fields_joined(rest);
        assert(seq![w] + rest =~= ws);
    }
}

/// Board `p` with the pieces of `v` on rank `r`, from file `f` on, put
/// on it square by square.
pub open spec fn fill_rank(p: [[u64; 6]; 2], v: GameStateView, r: int, f: int) -> [[u64; 6]; 2]
    decreases 8 - f,
{
    if f >= 8 {
        p
    } else {
        match v.occupant((8 * r + f) as u64) {
            Some((c, k)) => fill_rank(put(p, c, k, (8 * r + f) as u64), v, r, f + 1),
            None => fill_rank(p, v, r, f + 1),
        }
    }
}

/// Board `p` with the pieces of `v` on ranks `r` down to 1 put on it.
pub open spec fn fill_ranks(p: [[u64; 6]; 2], v: GameStateView, r: int) -> [[u64; 6]; 2]
    decreases r,
{
    if r <= 0 {
        fill_rank(p, v, 0, 0)
    } else {
        fill_ranks(fill_rank(p, v, r, 0), v, r - 1)
    }
}

/// What a piece letter reads as.
proof fn lemma_piece_byte(c: Color, k: PieceKind)
    ensures
        piece_of_byte(piece_char(c, k) as u8) == Some((c, k)),
        piece_char(c, k) as u8 != 47,
        !(49 <= piece_char(c, k) as u8 <= 56),
        is_token_char(piece_char(c, k)),
{
}

/// The text of a rank is a token text; it is nonempty when squares or
/// pending empty squares remain.
proof fn lemma_rank_token(v: GameStateView, r: int, f: int, empty: nat)
    requires
        0 <= f <= 8,
        empty <= 8,
        empty + (8 - f) <= 8,
    ensures
        token_text(rank_text(v, r, f, empty)),
        empty + (8 - f) > 0 ==> rank_text(v, r, f, empty).len() > 0,
    decreases 8 - f,
{
    if f < 8 {
        match v.occupant((8 * r + f) as u64) {
            Some((c, k)) => {
                lemma_rank_token(v, r, f + 1, 0);
                lemma_piece_byte(c, k);
                lemma_token_concat(gap_text(empty), seq![piece_char(c, k)]);
                lemma_token_concat(gap_text(empty) + seq![piece_char(c, k)], rank_text(v, r, f + 1, 0));
            },
            None => {
                lemma_rank_token(v, r, f + 1, empty + 1);
            },
        }
    }
}

/// The placement text is a nonempty token text.
proof fn lemma_placement_token(v: GameStateView, r: int)
    ensures
        token_text(placement_text(v, r)),
        placement_text(v, r).len() > 0,
    decreases r,
{
    lemma_rank_token(v, r, 0, 0);
    if r > 0 {
        lemma_placement_token(v, r - 1);
        lemma_token_concat(rank_text(v, r, 0, 0), seq!['/']);
        lemma_token_concat(rank_text(v, r, 0, 0) + seq!['/'], placement_text(v, r - 1));
    } else {
        lemma_rank_token(v, 0, 0, 0);
    }
}

/// Reading the text of rank `r` from file `f` (with `empty` empty squares
/// pending) puts the rank's pieces from file `f` on and ends at file 0.
#[verifier::spinoff_prover]
#[verifier::rlimit(50)]
proof fn lemma_read_rank(t: Seq<u8>, i: int, v: GameStateView, r: int, f: int, empty: nat, p: [[u64; 6]; 2])
    requires
        0 <= r <= 7,
        0 <= f <= 8,
        empty <= f,
        0 <= i,
        i + rank_text(v, r, f, empty).len() <= t.len(),
        forall|k: int| 0 <= k < rank_text(v, r, f, empty).len() ==> t[i + k] == #[trigger] rank_text(v, r, f, empty)[k] as u8,
    ensures
        place_run(t, i, (f - empty) % 8, r, p) == place_run(
            t,
            i + rank_text(v, r, f, empty).len(),
            0,
            r,
            fill_rank(p, v, r, f),
        ),
    decreases 8 - f,
{
    let x = rank_text(v, r, f, empty);
    if f >= 8 {
        if empty > 0 {
            assert(x[0] == (empty + 48) as char);
            assert(t[i + 0] == x[0] as u8);
            assert(t[i] == empty + 48);
            assert(((f - empty) % 8 + (t[i] - 48)) % 8 == 0);
            assert(x.len() == 1);
            assert(place_run(t, i, (f - empty) % 8, r, p) == place_run(t, i + 1, 0, r, p));
        } else {
            assert(x.len() == 0);
        }
        assert(fill_rank(p, v, r, f) == p);
        assert(place_run(t, i, (f - empty) % 8, r, p) == place_run(t, i + x.len(), 0, r, fill_rank(p, v, r, f)));
    } else {
        let sq = (8 * r + f) as u64;
        match v.occupant(sq) {
            Some((c, k)) => {
                let g = gap_text(empty);
                let rest = rank_text(v, r, f + 1, 0);
                assert(x == g + seq![piece_char(c, k)] + rest);
                lemma_piece_byte(c, k);
                if empty > 0 {
                    assert(x[0] == (empty + 48) as char);
                    assert(t[i + 0] == x[0] as u8);
                    assert(((f - empty) % 8 + (t[i] - 48)) % 8 == f);
                }
                let j = i + g.len();
                assert(x[g.len() as int] == piece_char(c, k));
                assert(t[i + g.len()] == x[g.len() as int] as u8);
                assert forall|q: int| 0 <= q < rest.len() implies t[j + 1 + q] == #[trigger] rest[q] as u8 by {
                    assert(x[g.len() + 1 + q] == rest[q]);
                    assert(t[i + (g.len() + 1 + q)] == x[g.len() + 1 + q] as u8);
                }
                lemma_read_rank(t, j + 1, v, r, f + 1, 0, put(p, c, k, sq));
                assert(((f + 1 - 0) % 8) == (f + 1) % 8);
                assert(place_run(t, j, f, r, p) == place_run(t, j + 1, (f + 1) % 8, r, put(p, c, k, sq)));
                assert(place_run(t, i, (f - empty) % 8, r, p) == place_run(t, j, f, r, p));
                assert(fill_rank(p, v, r, f) == fill_rank(put(p, c, k, sq), v, r, f + 1));
            },
            None => {
                lemma_read_rank(t, i, v, r, f + 1, empty + 1, p);
                assert((f + 1 - (empty + 1)) % 8 == (f - empty) % 8);
                assert(fill_rank(p, v, r, f) == fill_rank(p, v, r, f + 1));
                assert(x == rank_text(v, r, f + 1, empty + 1));
            },
        }
    }
}

/// Reading the placement text of ranks `r` down to 1 puts all their
/// pieces.
proof fn lemma_read_placement(t: Seq<u8>, i: int, v: GameStateView, r: int, p: [[u64; 6]; 2])
    requires
        0 <= r <= 7,
        0 <= i,
        i + placement_text(v, r).len() == t.len(),
        forall|k: int| 0 <= k < placement_text(v, r).len() ==> t[i + k] == #[trigger] placement_text(v, r)[k] as u8,
    ensures
        place_run(t, i, 0, r, p) == Some(fill_ranks(p, v, r)),
    decreases r,
{
    let x = placement_text(v, r);
    let w = rank_text(v, r, 0, 0);
    if r <= 0 {
        assert(x == w);
        lemma_read_rank(t, i, v, r, 0, 0, p);
    } else {
        let rest = placement_text(v, r - 1);
        assert(x == w + seq!['/'] + rest);
        assert forall|k: int| 0 <= k < w.len() implies t[i + k] == #[trigger] w[k] as u8 by {
            assert(x[k] == w[k]);
        }
        lemma_read_rank(t, i, v, r, 0, 0, p);
        assert(x[w.len() as int] == '/');
        assert(t[i + w.len()] == x[w.len() as int] as u8);
        assert forall|k: int| 0 <= k < rest.len() implies t[i + w.len() + 1 + k] == #[trigger] rest[k] as u8 by {
            assert(x[w.len() + 1 + k] == rest[k]);
            assert(t[i + (w.len() + 1 + k)] == x[w.len() + 1 + k] as u8);
        }
        lemma_read_placement(t, i + w.len() + 1, v, r - 1, fill_rank(p, v, r, 0));
    }
}

/// The boards after putting a piece on `sq`: that square holds exactly
/// the piece, the other squares are unchanged.
proof fn lemma_put_bits(p: [[u64; 6]; 2], c: Color, k: PieceKind, sq: u64, c2: Color, k2: PieceKind, t: u64)
    requires
        sq < 64,
        t < 64,
    ensures
        bit(put(p, c, k, sq)[c2.idx() as int][k2.idx() as int], t) == if t == sq {
            c2 == c && k2 == k
        } else {
            bit(p[c2.idx() as int][k2.idx() as int], t)
        },
{
    let ci = c2.idx() as int;
    let ki = k2.idx() as int;
    lemma_mask_ops(p[ci][ki], sq, t);
    assert(put(p, c, k, sq)[ci][ki] == crate::fen_parser::put_entry(p, ci, ki, c, k, sq));
}

/// The boards after filling rank `r` from file `f`, on boards clear there.
proof fn lemma_fill_rank_bits(
    p: [[u64; 6]; 2],
    v: GameStateView,
    r: int,
    f: int,
    c2: Color,
    k2: PieceKind,
    t: u64,
)
    requires
        0 <= r <= 7,
        0 <= f <= 8,
        t < 64,
        forall|c3: Color, k3: PieceKind, u: u64|
            u < 64 && u / 8 == r && u % 8 >= f ==> !#[trigger] bit(p[c3.idx() as int][k3.idx() as int], u),
    ensures
        bit(fill_rank(p, v, r, f)[c2.idx() as int][k2.idx() as int], t) == if t / 8 == r && t % 8 >= f {
            v.occupant(t) == Some((c2, k2))
        } else {
            bit(p[c2.idx() as int][k2.idx() as int], t)
        },
    decreases 8 - f,
{
    if f < 8 {
        let sq = (8 * r + f) as u64;
        assert(sq / 8 == r && sq % 8 == f);
        match v.occupant(sq) {
            Some((c, k)) => {
                let q = put(p, c, k, sq);
                assert forall|c3: Color, k3: PieceKind, u: u64|
                    u < 64 && u / 8 == r && u % 8 >= f + 1 implies !#[trigger] bit(q[c3.idx() as int][k3.idx() as int], u) by {
                    lemma_put_bits(p, c, k, sq, c3, k3, u);
                }
                lemma_fill_rank_bits(q, v, r, f + 1, c2, k2, t);
                lemma_put_bits(p, c, k, sq, c2, k2, t);
            },
            None => {
                lemma_fill_rank_bits(p, v, r, f + 1, c2, k2, t);
            },
        }
    }
}

/// The boards after filling ranks `r` down to 1, on boards clear there.
proof fn lemma_fill_ranks_bits(p: [[u64; 6]; 2], v: GameStateView, r: int, c2: Color, k2: PieceKind, t: u64)
    requires
        0 <= r <= 7,
        t < 64,
        forall|c3: Color, k3: PieceKind, u: u64|
            u < 64 && u / 8 <= r ==> !#[trigger] bit(p[c3.idx() as int][k3.idx() as int], u),
    ensures
        bit(fill_ranks(p, v, r)[c2.idx() as int][k2.idx() as int], t) == if t / 8 <= r {
            v.occupant(t) == Some((c2, k2))
        } else {
            bit(p[c2.idx() as int][k2.idx() as int], t)
        },
    decreases r,
{
    if r <= 0 {
        lemma_fill_rank_bits(p, v, 0, 0, c2, k2, t);
    } else {
        let q = fill_rank(p, v, r, 0);
        assert forall|c3: Color, k3: PieceKind, u: u64|
            u < 64 && u / 8 <= r - 1 implies !#[trigger] bit(q[c3.idx() as int][k3.idx() as int], u) by {
            lemma_fill_rank_bits(p, v, r, 0, c3, k3, u);
        }
        lemma_fill_ranks_bits(q, v, r - 1, c2, k2, t);
        lemma_fill_rank_bits(p, v, r, 0, c2, k2, t);
    }
}

/// On a well-formed position a square's occupant is the piece whose board
/// marks it.
proof fn lemma_occupant_has(v: GameStateView, t: u64, c2: Color, k2: PieceKind)
    requires
        v.wf(),
        t < 64,
    ensures
        (v.occupant(t) == Some((c2, k2))) == v.has(c2, k2, t),
{
    if v.has(c2, k2, t) {
        assert forall|c1: Color, k1: PieceKind| v.has(c1, k1, t) implies c1 == c2 && k1 == k2 by {}
    }
}

/// Filling every rank of empty boards with a well-formed position's
/// pieces gives its boards, one board.
proof fn lemma_filled_board(v: GameStateView, c2: Color, k2: PieceKind)
    requires
        v.wf(),
    ensures
        fill_ranks(no_pieces(), v, 7)[c2.idx() as int][k2.idx() as int] == v.pieces[c2.idx() as int][k2.idx() as int],
{
    let e = no_pieces();
    assert forall|c3: Color, k3: PieceKind, u: u64| u < 64 && u / 8 <= 7 implies !#[trigger] bit(e[c3.idx() as int][k3.idx() as int], u) by {
        lemma_bit_ops(0u64, 0u64, u);
    }
    let a = fill_ranks(e, v, 7)[c2.idx() as int][k2.idx() as int];
    let b = v.pieces[c2.idx() as int][k2.idx() as int];
    assert forall|t: u64| t < 64 implies bit(a, t) == bit(b, t) by {
        lemma_fill_ranks_bits(e, v, 7, c2, k2, t);
        lemma_occupant_has(v, t, c2, k2);
    }
    lemma_bits_ext(a, b);
}

/// Filling every rank of empty boards with a well-formed position's
/// pieces gives its boards.
proof fn lemma_filled_boards(v: GameStateView)
    requires
        v.wf(),
    ensures
        fill_ranks(no_pieces(), v, 7) == v.pieces,
{
    let a = fill_ranks(no_pieces(), v, 7);
    lemma_filled_board(v, Color::Light, PieceKind::Pawn);
    lemma_filled_board(v, Color::Light, PieceKind::Knight);
    lemma_filled_board(v, Color::Light, PieceKind::Bishop);
    lemma_filled_board(v, Color::Light, PieceKind::Rook);
    lemma_filled_board(v, Color::Light, PieceKind::Queen);
    lemma_filled_board(v, Color::Light, PieceKind::King);
    lemma_filled_board(v, Color::Dark, PieceKind::Pawn);
    lemma_filled_board(v, Color::Dark, PieceKind::Knight);
    lemma_filled_board(v, Color::Dark, PieceKind::Bishop);
    lemma_filled_board(v, Color::Dark, PieceKind::Rook);
    lemma_filled_board(v, Color::Dark, PieceKind::Queen);
    lemma_filled_board(v, Color::Dark, PieceKind::King);
    assert(a[0] =~= v.pieces[0]);
    assert(a[1] =~= v.pieces[1]);
    assert(a =~= v.pieces);
}

/// Reading one more castling byte.
proof fn lemma_castling_push(s: Seq<u8>, b: u8, i: int, acc: u8)
    requires
        0 <= i <= s.len(),
    ensures
        castling_run(s.push(b), i, acc) == match castling_run(s, i, acc) {
            Some(x) => castling_run(seq![b], 0, x),
            None => None,
        },
    decreases s.len() - i,
{
    if i < s.len() {
        assert(s.push(b)[i] == s[i]);
        let x = s[i];
        if x == 75 {
            lemma_castling_push(s, b, i + 1, acc | 1);
        } else if x == 81 {
            lemma_castling_push(s, b, i + 1, acc | 2);
        } else if x == 107 {
            lemma_castling_push(s, b, i + 1, acc | 4);
        } else if x == 113 {
            lemma_castling_push(s, b, i + 1, acc | 8);
        } else if x == 45 {
            lemma_castling_push(s, b, i + 1, acc);
        }
    } else {
        reveal_with_fuel(castling_run, 2);
        assert(s.push(b)[i] == b);
        assert(seq![b][0] == b);
    }
}

/// The bytes of a castling field kept when a right is held.
pub open spec fn castle_letter(held: bool, letter: u8) -> Seq<u8> {
    if held {
        seq![letter]
    } else {
        Seq::empty()
    }
}

/// The castling field reads back as the rights it was written from.
proof fn lemma_read_castling(r: u8)
    ensures
        castling_run(bytes_of(castling_text(r)), 0, 0) == Some(r & 15),
        token_text(castling_text(r)),
        castling_text(r).len() > 0,
{
    reveal_with_fuel(castling_run, 2);
    let x = castling_text(r);
    if r & 15 == 0 {
        assert(bytes_of(x) =~= seq![45u8]);
    } else {
        let s1 = castle_letter(r & 1 != 0, 75);
        let s2 = s1 + castle_letter(r & 2 != 0, 81);
        let s3 = s2 + castle_letter(r & 4 != 0, 107);
        let s4 = s3 + castle_letter(r & 8 != 0, 113);
        assert(bytes_of(x) =~= s4);
        let a1: u8 = if r & 1 != 0 {
            0u8 | 1u8
        } else {
            0u8
        };
        let a2: u8 = if r & 2 != 0 {
            a1 | 2u8
        } else {
            a1
        };
        let a3: u8 = if r & 4 != 0 {
            a2 | 4u8
        } else {
            a2
        };
        let a4: u8 = if r & 8 != 0 {
            a3 | 8u8
        } else {
            a3
        };
        assert(castling_run(s1, 0, 0) == Some(a1)) by {
            if r & 1 != 0 {
                assert(s1 =~= Seq::<u8>::empty().push(75u8));
                lemma_castling_push(Seq::empty(), 75, 0, 0);
            }
        }
        assert(castling_run(s2, 0, 0) == Some(a2)) by {
            if r & 2 != 0 {
                assert(s2 =~= s1.push(81u8));
                lemma_castling_push(s1, 81, 0, 0);
            } else {
                assert(s2 =~= s1);
            }
        }
        assert(castling_run(s3, 0, 0) == Some(a3)) by {
            if r & 4 != 0 {
                assert(s3 =~= s2.push(107u8));
                lemma_castling_push(s2, 107, 0, 0);
            } else {
                assert(s3 =~= s2);
            }
        }
        assert(castling_run(s4, 0, 0) == Some(a4)) by {
            if r & 8 != 0 {
                assert(s4 =~= s3.push(113u8));
                lemma_castling_push(s3, 113, 0, 0);
            } else {
                assert(s4 =~= s3);
            }
        }
        assert(a4 == r & 15) by (bit_vector)
            requires
                a1 == (if r & 1 != 0 { 0u8 | 1u8 } else { 0u8 }),
                a2 == (if r & 2 != 0 { a1 | 2u8 } else { a1 }),
                a3 == (if r & 4 != 0 { a2 | 4u8 } else { a2 }),
                a4 == (if r & 8 != 0 { a3 | 8u8 } else { a3 }),
        ;
        assert(x.len() > 0);
    }
}

/// The en-passant field reads back as the square it was written from.
proof fn lemma_read_ep(ep: Option<Square>)
    requires
        ep matches Some(e) ==> e < 64,
    ensures
        ep_of(bytes_of(ep_text(ep))) == Some(ep),
        token_text(ep_text(ep)),
        ep_text(ep).len() > 0,
{
    let x = ep_text(ep);
    let b = bytes_of(x);
    match ep {
        Some(e) => {
            assert(b[0] == (e % 8) + 97);
            assert(b[1] == (e / 8) + 49);
            assert(8 * (e / 8) + e % 8 == e);
        },
        None => {
            assert(b[0] == 45);
        },
    }
}

/// Reading one more digit.
proof fn lemma_digits_push(s: Seq<u8>, d: u8, i: int, acc: int)
    requires
        0 <= i <= s.len(),
        48 <= d <= 57,
    ensures
        digits_run(s.push(d), i, acc) == match digits_run(s, i, acc) {
            Some(x) => Some(x * 10 + (d - 48)),
            None => None,
        },
    decreases s.len() - i,
{
    if i < s.len() {
        assert(s.push(d)[i] == s[i]);
        if 48 <= s[i] <= 57 {
            lemma_digits_push(s, d, i + 1, acc * 10 + (s[i] - 48));
        }
    } else {
        reveal_with_fuel(digits_run, 2);
        assert(s.push(d)[i] == d);
    }
}

/// A number's decimal form reads back as the number.
proof fn lemma_read_decimal(n: nat)
    ensures
        digits_run(bytes_of(decimal_chars(n)), 0, 0) == Some(n as int),
    decreases n,
{
    let x = decimal_chars(n);
    if n < 10 {
        assert(bytes_of(x) =~= Seq::<u8>::empty().push((n + 48) as u8));
        lemma_digits_push(Seq::empty(), (n + 48) as u8, 0, 0);
    } else {
        lemma_read_decimal(n / 10);
        assert(bytes_of(x) =~= bytes_of(decimal_chars(n / 10)).push(((n % 10) + 48) as u8));
        lemma_digits_push(bytes_of(decimal_chars(n / 10)), ((n % 10) + 48) as u8, 0, 0);
    }
}

/// A clock's decimal form reads back as the clock.
proof fn lemma_read_clock(n: u16)
    ensures
        u16_of(bytes_of(decimal_chars(n as nat))) == Some(n),
        token_text(decimal_chars(n as nat)),
        decimal_chars(n as nat).len() > 0,
{
    lemma_read_decimal(n as nat);
    lemma_decimal_token(n as nat);
    let b = bytes_of(decimal_chars(n as nat));
    assert('0' <= decimal_chars(n as nat)[0] <= '9');
    assert(b[0] != 43);
}

/// Every character is a space or a token character.
pub open spec fn plain_text(s: Seq<char>) -> bool {
    forall|i: int| 0 <= i < s.len() ==> (#[trigger] s[i] == ' ' || is_token_char(s[i]))
}

/// Plain texts concatenate.
proof fn lemma_plain_concat(a: Seq<char>, b: Seq<char>)
    requires
        plain_text(a),
        plain_text(b),
    ensures
        plain_text(a + b),
{
    assert forall|i: int| 0 <= i < (a + b).len() implies (#[trigger] (a + b)[i] == ' ' || is_token_char((a + b)[i])) by {
        if i < a.len() {
            assert((a + b)[i] == a[i]);
        } else {
            assert((a + b)[i] == b[i - a.len()]);
        }
    }
}

/// The six FEN fields of a position, as text.
pub open spec fn fen_parts(v: GameStateView) -> Seq<Seq<char>> {
    seq![
        placement_text(v, 7),
        if v.side_to_move == Color::Light {
            seq!['w']
        } else {
            seq!['b']
        },
        castling_text(v.castling_rights),
        ep_text(v.en_passant_square),
        decimal_chars(v.halfmove_clock as nat),
        decimal_chars(v.fullmove_number as nat),
    ]
}

/// Texts joined by single spaces.
pub open spec fn joined_text(ps: Seq<Seq<char>>) -> Seq<char>
    decreases ps.len(),
{
    if ps.len() == 0 {
        Seq::empty()
    } else if ps.len() == 1 {
        ps[0]
    } else {
        ps[0] + seq![' '] + joined_text(ps.drop_first())
    }
}

/// The bytes of texts joined by spaces are their bytes joined by spaces.
proof fn lemma_bytes_joined(ps: Seq<Seq<char>>)
    ensures
        bytes_of(joined_text(ps)) == joined(ps.map_values(|x: Seq<char>| bytes_of(x))),
    decreases ps.len(),
{
    let bs = ps.map_values(|x: Seq<char>| bytes_of(x));
    if ps.len() == 0 {
        assert(bytes_of(joined_text(ps)) =~= joined(bs));
    } else if ps.len() == 1 {
    } else {
        lemma_bytes_joined(ps.drop_first());
        assert(ps.drop_first().map_values(|x: Seq<char>| bytes_of(x)) =~= bs.drop_first());
        lemma_bytes_concat(ps[0] + seq![' '], joined_text(ps.drop_first()));
        lemma_bytes_concat(ps[0], seq![' ']);
        assert(bytes_of(seq![' ']) =~= seq![32u8]);
    }
}

/// The FEN text is its six fields joined by single spaces.
#[verifier::rlimit(40)]
proof fn lemma_fen_joined(v: GameStateView)
    ensures
        fen_of(v) == joined_text(fen_parts(v)),
{
    let ps = fen_parts(v);
    let sp = seq![' '];
    let t5 = ps.subrange(5, 6);
    let t4 = ps.subrange(4, 6);
    let t3 = ps.subrange(3, 6);
    let t2 = ps.subrange(2, 6);
    let t1 = ps.subrange(1, 6);
    assert(joined_text(t5) == ps[5]) by {
        assert(t5.len() == 1);
    }
    assert(joined_text(t4) == ps[4] + sp + ps[5]) by {
        assert(t4.drop_first() =~= t5);
    }
    assert(joined_text(t3) == ps[3] + sp + joined_text(t4)) by {
        assert(t3.drop_first() =~= t4);
    }
    assert(joined_text(t2) == ps[2] + sp + joined_text(t3)) by {
        assert(t2.drop_first() =~= t3);
    }
    assert(joined_text(t1) == ps[1] + sp + joined_text(t2)) by {
        assert(t1.drop_first() =~= t2);
    }
    assert(joined_text(ps) == ps[0] + sp + joined_text(t1)) by {
        assert(ps.drop_first() =~= t1);
    }
    assert(fen_of(v) =~= joined_text(ps));
}

/// The FEN text is plain text, and its fields are nonempty token texts.
proof fn lemma_fen_plain(v: GameStateView)
    requires
        v.wf(),
    ensures
        plain_text(fen_of(v)),
        forall|j: int| 0 <= j < 6 ==> token_text(#[trigger] fen_parts(v)[j]) && fen_parts(v)[j].len() > 0,
{
    let ps = fen_parts(v);
    let sp = seq![' '];
    lemma_placement_token(v, 7);
    lemma_read_castling(v.castling_rights);
    lemma_read_ep(v.en_passant_square);
    lemma_read_clock(v.halfmove_clock);
    lemma_read_clock(v.fullmove_number);
    assert(token_text(ps[1]));
    assert(plain_text(sp));
    assert forall|q: int| 0 <= q < 6 implies plain_text(#[trigger] ps[q]) by {
        assert(token_text(ps[q]));
    }
    let a1 = ps[0] + sp + ps[1];
    let a2 = a1 + sp + ps[2];
    let a3 = a2 + sp + ps[3];
    let a4 = a3 + sp + ps[4];
    lemma_plain_concat(ps[0], sp);
    lemma_plain_concat(ps[0] + sp, ps[1]);
    lemma_plain_concat(a1, sp);
    lemma_plain_concat(a1 + sp, ps[2]);
    lemma_plain_concat(a2, sp);
    lemma_plain_concat(a2 + sp, ps[3]);
    lemma_plain_concat(a3, sp);
    lemma_plain_concat(a3 + sp, ps[4]);
    lemma_plain_concat(a4, sp);
    lemma_plain_concat(a4 + sp, ps[5]);
    assert(fen_of(v) == a4 + sp + ps[5]);
}

/// FEN text written for a well-formed position reads back as that
/// position: the same boards, side to move, castling flags, en-passant
/// square and clocks (keys and history computed as for any text read).
pub proof fn lemma_fen_roundtrip(v: GameStateView)
    requires
        v.wf(),
    ensures
        fen_view(vstd::utf8::encode_utf8(fen_of(v))) == Some(
            position_view(
                v.pieces,
                v.side_to_move,
                v.castling_rights & 15,
                v.en_passant_square,
                v.halfmove_clock,
                v.fullmove_number,
            ),
        ),
{
    let text = fen_of(v);
    let ps = fen_parts(v);
    let bs = ps.map_values(|x: Seq<char>| bytes_of(x));
    lemma_fen_plain(v);
    lemma_fen_joined(v);
    lemma_bytes_joined(ps);
    assert(vstd::utf8::is_ascii_chars(text)) by {
        assert forall|i: int| 0 <= i < text.len() implies '\0' <= #[trigger] text[i] <= '\u{7f}' by {
            assert(text[i] == ' ' || is_token_char(text[i]));
        }
    }
    let enc = vstd::utf8::encode_utf8(text);
    assert(enc =~= bytes_of(text));
    assert forall|j: int| 0 <= j < bs.len() implies #[trigger] bs[j].len() > 0 by {
        assert(ps[j].len() > 0);
    }
    assert forall|j: int, k: int| 0 <= j < bs.len() && 0 <= k < bs[j].len() implies !is_ascii_ws(#[trigger] bs[j][k]) by {
        assert(token_text(ps[j]));
        lemma_token_bytes(ps[j]);
    }
    lemma_fields_joined(bs);
    assert(fen_fields(enc) == bs);
    lemma_read_placement(bs[0], 0, v, 7, no_pieces());
    lemma_filled_boards(v);
    lemma_read_castling(v.castling_rights);
    lemma_read_ep(v.en_passant_square);
    lemma_read_clock(v.halfmove_clock);
    lemma_read_clock(v.fullmove_number);
    assert(side_of(bs[1]) == Some(v.side_to_move));
}

/// No square is marked on two boards.
pub open spec fn boards_disjoint(p: [[u64; 6]; 2]) -> bool {
    forall|sq: u64, c1: Color, k1: PieceKind, c2: Color, k2: PieceKind|
        sq < 64 && #[trigger] bit(p[c1.idx() as int][k1.idx() as int], sq) && #[trigger] bit(
            p[c2.idx() as int][k2.idx() as int],
            sq,
        ) ==> c1 == c2 && k1 == k2
}

/// Putting a piece keeps the boards disjoint.
proof fn lemma_put_disjoint(p: [[u64; 6]; 2], c: Color, k: PieceKind, sq: u64)
    requires
        boards_disjoint(p),
        sq < 64,
    ensures
        boards_disjoint(put(p, c, k, sq)),
{
    let q = put(p, c, k, sq);
    assert forall|t: u64, c1: Color, k1: PieceKind, c2: Color, k2: PieceKind|
        t < 64 && #[trigger] bit(q[c1.idx() as int][k1.idx() as int], t) && #[trigger] bit(
            q[c2.idx() as int][k2.idx() as int],
            t,
        ) implies c1 == c2 && k1 == k2 by {
        lemma_put_bits(p, c, k, sq, c1, k1, t);
        lemma_put_bits(p, c, k, sq, c2, k2, t);
    }
}

/// Reading a placement keeps the boards disjoint.
proof fn lemma_place_run_disjoint(f: Seq<u8>, i: int, file: int, rank: int, p: [[u64; 6]; 2])
    requires
        boards_disjoint(p),
        0 <= file < 8,
        0 <= rank <= 7,
        place_run(f, i, file, rank, p) is Some,
    ensures
        boards_disjoint(place_run(f, i, file, rank, p).unwrap()),
    decreases f.len() - i,
{
    if 0 <= i < f.len() {
        let b = f[i];
        if b == 47 {
            lemma_place_run_disjoint(f, i + 1, file, rank - 1, p);
        } else if 49 <= b <= 56 {
            lemma_place_run_disjoint(f, i + 1, (file + (b - 48)) % 8, rank, p);
        } else {
            let (c, k) = piece_of_byte(b).unwrap();
            lemma_put_disjoint(p, c, k, (8 * rank + file) as u64);
            lemma_place_run_disjoint(f, i + 1, (file + 1) % 8, rank, put(p, c, k, (8 * rank + file) as u64));
        }
    }
}

/// Reading castling flags from rights below 16 stays below 16.
proof fn lemma_castling_small(f: Seq<u8>, i: int, acc: u8)
    requires
        acc < 16,
        castling_run(f, i, acc) is Some,
    ensures
        castling_run(f, i, acc).unwrap() < 16,
    decreases f.len() - i,
{
    assert((acc | 1u8) < 16 && (acc | 2u8) < 16 && (acc | 4u8) < 16 && (acc | 8u8) < 16) by (bit_vector)
        requires
            acc < 16,
    ;
    if 0 <= i < f.len() {
        let b = f[i];
        if b == 75 {
            lemma_castling_small(f, i + 1, acc | 1);
        } else if b == 81 {
            lemma_castling_small(f, i + 1, acc | 2);
        } else if b == 107 {
            lemma_castling_small(f, i + 1, acc | 4);
        } else if b == 113 {
            lemma_castling_small(f, i + 1, acc | 8);
        } else {
            lemma_castling_small(f, i + 1, acc);
        }
    }
}

/// A position assembled from disjoint boards and an on-board en-passant
/// square is well formed.
proof fn lemma_position_view_wf(
    p: [[u64; 6]; 2],
    side: Color,
    rights: u8,
    ep: Option<Square>,
    halfmove: u16,
    fullmove: u16,
)
    requires
        boards_disjoint(p),
        ep matches Some(e) ==> e < 64,
    ensures
        position_view(p, side, rights, ep, halfmove, fullmove).wf(),
{
    let w = position_view(p, side, rights, ep, halfmove, fullmove);
    assert forall|sq: u64, c: Color| sq < 64 implies (#[trigger] bit(w.occupancy_by_color[c.idx() as int], sq) <==> w.kind_at(c, sq) is Some) by {
        let ci = c.idx() as int;
        lemma_bit_ops(p[ci][0], p[ci][1], sq);
        lemma_bit_ops(p[ci][0] | p[ci][1], p[ci][2], sq);
        lemma_bit_ops(p[ci][0] | p[ci][1] | p[ci][2], p[ci][3], sq);
        lemma_bit_ops(p[ci][0] | p[ci][1] | p[ci][2] | p[ci][3], p[ci][4], sq);
        lemma_bit_ops(p[ci][0] | p[ci][1] | p[ci][2] | p[ci][3] | p[ci][4], p[ci][5], sq);
    }
    assert forall|sq: u64| sq < 64 implies (#[trigger] bit(w.occupancy_all, sq) <==> (bit(w.occupancy_by_color[0], sq) || bit(
        w.occupancy_by_color[1],
        sq,
    ))) by {
        lemma_bit_ops(w.occupancy_by_color[0], w.occupancy_by_color[1], sq);
    }
    assert forall|sq: u64, c1: Color, k1: PieceKind, c2: Color, k2: PieceKind|
        sq < 64 && #[trigger] w.has(c1, k1, sq) && #[trigger] w.has(c2, k2, sq) implies c1 == c2 && k1 == k2 by {
        assert(bit(p[c1.idx() as int][k1.idx() as int], sq));
        assert(bit(p[c2.idx() as int][k2.idx() as int], sq));
    }
}

/// A position read from FEN text is written back as text that reads as
/// the same position.
pub proof fn lemma_fen_reread(s: Seq<u8>)
    requires
        fen_view(s) is Some,
    ensures
        fen_view(vstd::utf8::encode_utf8(fen_of(fen_view(s).unwrap()))) == fen_view(s),
{
    let fs = fen_fields(s);
    let w = fen_view(s).unwrap();
    let p = place_run(fs[0], 0, 0, 7, no_pieces()).unwrap();
    let r = castling_run(fs[2], 0, 0).unwrap();
    let e = no_pieces();
    assert(boards_disjoint(e)) by {
        assert forall|sq: u64, c1: Color, k1: PieceKind, c2: Color, k2: PieceKind|
            sq < 64 && #[trigger] bit(e[c1.idx() as int][k1.idx() as int], sq) && #[trigger] bit(
                e[c2.idx() as int][k2.idx() as int],
                sq,
            ) implies c1 == c2 && k1 == k2 by {
            lemma_bit_ops(0u64, 0u64, sq);
        }
    }
    lemma_place_run_disjoint(fs[0], 0, 0, 7, e);
    lemma_castling_small(fs[2], 0, 0);
    assert(r & 15 == r) by (bit_vector)
        requires
            r < 16,
    ;
    lemma_position_view_wf(p, w.side_to_move, r, w.en_passant_square, w.halfmove_clock, w.fullmove_number);
    lemma_fen_roundtrip(w);
}


/// The ranks' text depends on the piece boards only.
proof fn lemma_rank_text_same_boards(v: GameStateView, w: GameStateView, r: int, f: int, empty: nat)
    requires
        v.pieces == w.pieces,
    ensures
        rank_text(v, r, f, empty) == rank_text(w, r, f, empty),
    decreases 8 - f,
{
    if f < 8 {
        assert(v.occupant((8 * r + f) as u64) == w.occupant((8 * r + f) as u64));
        lemma_rank_text_same_boards(v, w, r, f + 1, 0);
        lemma_rank_text_same_boards(v, w, r, f + 1, (empty + 1) as nat);
    }
}

/// The placement text depends on the piece boards only.
proof fn lemma_placement_text_same_boards(v: GameStateView, w: GameStateView, r: int)
    requires
        v.pieces == w.pieces,
    ensures
        placement_text(v, r) == placement_text(w, r),
    decreases r,
{
    lemma_rank_text_same_boards(v, w, r, 0, 0);
    lemma_rank_text_same_boards(v, w, 0, 0, 0);
    if r > 0 {
        lemma_placement_text_same_boards(v, w, r - 1);
    }
}

/// The FEN text of a well-formed position reads back to a position whose
/// FEN text is the same: writing, reading and writing again gives the
/// text written first.
pub proof fn lemma_fen_text_roundtrip(v: GameStateView)
    requires
        v.wf(),
    ensures
        fen_view(vstd::utf8::encode_utf8(fen_of(v))) is Some,
        fen_of(fen_view(vstd::utf8::encode_utf8(fen_of(v))).unwrap()) == fen_of(v),
{
    lemma_fen_roundtrip(v);
    let w = fen_view(vstd::utf8::encode_utf8(fen_of(v))).unwrap();
    lemma_placement_text_same_boards(v, w, 7);
    let r = v.castling_rights;
    assert((r & 15) & 15 == r & 15 && (r & 15) & 1 == r & 1 && (r & 15) & 2 == r & 2 && (r & 15) & 4 == r & 4
        && (r & 15) & 8 == r & 8) by (bit_vector);
    assert(castling_text(w.castling_rights) == castling_text(r));
}

} // verus!
