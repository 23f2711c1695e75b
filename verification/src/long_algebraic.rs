//! Long algebraic move notation (`e2e4`, `e7e8q`) for packed moves.

use vstd::prelude::*;
use crate::chess_types::{PieceKind, Square};
use crate::game_state::GameState;
use crate::legal_move_generator::{generation_ok, legal_move, FastLegalMoveGenerator};
use crate::move_descriptions::{move_from, move_promotion_piece_code, move_to, mv_from, mv_promo, mv_to};
use crate::move_generator::MoveGenerator;
use crate::text::{digit_str, file_letter};

verus! {

/// The square a file byte and a rank byte name.
pub open spec fn square_of_bytes(f: u8, r: u8) -> Option<u64> {
    if 97 <= f <= 104 && 49 <= r <= 56 {
        Some((8 * (r - 49) + (f - 97)) as u64)
    } else {
        None
    }
}

/// The promotion code a letter names (`n`, `b`, `r`, `q`, either case).
pub open spec fn promo_code_of_byte(b: u8) -> Option<u64> {
    if b == 110 || b == 78 {
        Some(1)
    } else if b == 98 || b == 66 {
        Some(2)
    } else if b == 114 || b == 82 {
        Some(3)
    } else if b == 113 || b == 81 {
        Some(4)
    } else {
        None
    }
}

/// Origin, destination and promotion code a long-algebraic text names.
pub open spec fn la_parts(s: Seq<u8>) -> Option<(u64, u64, u64)> {
    if s.len() != 4 && s.len() != 5 {
        None
    } else {
        match (square_of_bytes(s[0], s[1]), square_of_bytes(s[2], s[3])) {
            (Some(from), Some(to)) => if s.len() == 4 {
                Some((from, to, 7u64))
            } else {
                match promo_code_of_byte(s[4]) {
                    Some(p) => Some((from, to, p)),
                    None => None,
                }
            },
            _ => None,
        }
    }
}

/// `m` has the origin, destination and promotion code of `parts`.
pub open spec fn move_matches(m: u64, parts: (u64, u64, u64)) -> bool {
    mv_from(m) == parts.0 && mv_to(m) == parts.1 && mv_promo(m) == parts.2
}

/// The promotion letter of a code (none for 7 or other codes).
pub open spec fn promo_text(code: u64) -> Seq<char> {
    if code == 1 {
        seq!['n']
    } else if code == 2 {
        seq!['b']
    } else if code == 3 {
        seq!['r']
    } else if code == 4 {
        seq!['q']
    } else {
        Seq::empty()
    }
}

/// The two-character name of a square.
pub open spec fn square_text(sq: u64) -> Seq<char> {
    seq![((sq % 8) + 97) as char, ((sq / 8) + 49) as char]
}

/// The long-algebraic text of a packed move.
pub open spec fn la_text(m: u64) -> Seq<char> {
    square_text(mv_from(m)) + square_text(mv_to(m)) + promo_text(mv_promo(m))
}

/// Read a square from its two bytes.
fn square_from_bytes(f: u8, r: u8) -> (res: Option<Square>)
    ensures
        res matches Some(s) ==> square_of_bytes(f, r) == Some(s as u64),
        res is None <==> square_of_bytes(f, r) is None,
{
    if 97 <= f && f <= 104 && 49 <= r && r <= 56 {
        Some(8 * (r - 49) + (f - 97))
    } else {
        None
    }
}

/// Read a promotion letter.
fn promo_code_from_byte(b: u8) -> (r: Option<u64>)
    ensures
        r == promo_code_of_byte(b),
{
    if b == 110 || b == 78 {
        Some(1)
    } else if b == 98 || b == 66 {
        Some(2)
    } else if b == 114 || b == 82 {
        Some(3)
    } else if b == 113 || b == 81 {
        Some(4)
    } else {
        None
    }
}

/// The legal move of `game_state` that a long-algebraic text names.
///
/// Fails when the text is not two square names with an optional promotion
/// letter, when the position's moves cannot be generated, or when no legal
/// move has that origin, destination and promotion.
pub fn long_algebraic_to_move_description(text: &str, game_state: &GameState) -> (r: Result<
    u64,
    String,
>)
    ensures
        r matches Ok(m) ==> legal_move(game_state@, m) && la_parts(vstd::utf8::encode_utf8(text@)) is Some
            && move_matches(m, la_parts(vstd::utf8::encode_utf8(text@)).unwrap()),
        r is Ok <==> (la_parts(vstd::utf8::encode_utf8(text@)) is Some && generation_ok(game_state@)
            && exists|m: u64|
            legal_move(game_state@, m) && #[trigger] move_matches(
                m,
                la_parts(vstd::utf8::encode_utf8(text@)).unwrap(),
            )),
{
    let bytes = text.as_bytes();
    proof {
        assert(bytes@ == vstd::utf8::encode_utf8(text@));
    }
    if bytes.len() != 4 && bytes.len() != 5 {
        return Err(String::from_str("move text must be four or five characters"));
    }
    let from = match square_from_bytes(bytes[0], bytes[1]) {
        Some(s) => s,
        None => {
            return Err(String::from_str("invalid origin square"));
        },
    };
    let to = match square_from_bytes(bytes[2], bytes[3]) {
        Some(s) => s,
        None => {
            return Err(String::from_str("invalid destination square"));
        },
    };
    let promo: u64 = if bytes.len() == 5 {
        match promo_code_from_byte(bytes[4]) {
            Some(p) => p,
            None => {
                return Err(String::from_str("invalid promotion letter"));
            },
        }
    } else {
        7
    };
    let ghost parts = (from as u64, to as u64, promo);
    assert(la_parts(bytes@) == Some(parts));
    let moves = match FastLegalMoveGenerator.generate_legal_moves(game_state) {
        Ok(m) => m,
        Err(e) => {
            return Err(e.message());
        },
    };
    let mut i: usize = 0;
    while i < moves.len()
        invariant
            i <= moves.len(),
            crate::legal_move_generator::lists_legal_moves(game_state@, moves@, false),
            generation_ok(game_state@),
            parts == (from as u64, to as u64, promo),
            la_parts(vstd::utf8::encode_utf8(text@)) == Some(parts),
            forall|j: int| 0 <= j < i ==> !move_matches(#[trigger] moves@[j].move_description, parts),
        decreases moves.len() - i,
    {
        let m = moves[i].move_description;
        if move_from(m) == from && move_to(m) == to && move_promotion_piece_code(m) == promo {
            assert(legal_move(game_state@, moves@[i as int].move_description));
            assert(move_matches(m, parts));
            assert(legal_move(game_state@, m));
            assert(move_matches(m, la_parts(vstd::utf8::encode_utf8(text@)).unwrap()));
            return Ok(m);
        }
        i = i + 1;
    }
    proof {
        assert forall|m: u64| legal_move(game_state@, m) implies !#[trigger] move_matches(m, parts) by {
            let j = choose|j: int| 0 <= j < moves@.len() && moves@[j].move_description == m;
        }
    }
    Err(String::from_str("no legal move matches the text"))
}

/// The long-algebraic text of a packed move: origin, destination, and the
/// promotion letter when the move promotes.
pub fn move_description_to_long_algebraic(m: u64) -> (r: String)
    ensures
        r@ == la_text(m),
        mv_promo(m) == PieceKind::Bishop.idx() ==> r@.last() == 'b',
        mv_promo(m) == PieceKind::Rook.idx() ==> r@.last() == 'r',
        mv_promo(m) == PieceKind::Knight.idx() ==> r@.last() == 'n',
        mv_promo(m) == PieceKind::Queen.idx() ==> r@.last() == 'q',
{
    proof {
        lemma_promotion_letters_name_pieces(m, Seq::empty());
        reveal_strlit("n");
        reveal_strlit("b");
        reveal_strlit("r");
        reveal_strlit("q");
    }
    let from = move_from(m);
    let to = move_to(m);
    let mut s = String::new();
    s.append(file_letter(from % 8));
    s.append(digit_str(from / 8 + 1));
    s.append(file_letter(to % 8));
    s.append(digit_str(to / 8 + 1));
    let ghost squares = s@;
    let promo = move_promotion_piece_code(m);
    if promo == 1 {
        s.append("n");
    } else if promo == 2 {
        s.append("b");
    } else if promo == 3 {
        s.append("r");
    } else if promo == 4 {
        s.append("q");
    }
    proof {
        assert(squares =~= square_text(mv_from(m)) + square_text(mv_to(m)));
        assert(s@ =~= la_text(m));
    }
    s
}


/// Writing a move in long algebraic notation and reading the text back
/// gives the move's origin, destination and promotion code, for any move
/// whose promotion code is a piece (knight to queen) or "none".
pub proof fn lemma_la_text_roundtrip(m: u64)
    requires
        mv_promo(m) == 1 || mv_promo(m) == 2 || mv_promo(m) == 3 || mv_promo(m) == 4 || mv_promo(m) == 7,
    ensures
        la_parts(vstd::utf8::encode_utf8(la_text(m))) == Some((mv_from(m), mv_to(m), mv_promo(m))),
{
    crate::move_descriptions::lemma_field_bounds(m);
    let t = la_text(m);
    let from = mv_from(m);
    let to = mv_to(m);
    assert(vstd::utf8::is_ascii_chars(t));
    vstd::utf8::is_ascii_chars_encode_utf8(t);
    let b = vstd::utf8::encode_utf8(t);
    assert(b[0] == (from % 8) + 97);
    assert(b[1] == (from / 8) + 49);
    assert(b[2] == (to % 8) + 97);
    assert(b[3] == (to / 8) + 49);
    assert(square_of_bytes(b[0], b[1]) == Some(from));
    assert(square_of_bytes(b[2], b[3]) == Some(to));
}


/// Promotion letters follow UCI: the text of a move promoting to a knight,
/// bishop, rook or queen (its promotion code is that kind's index) ends in
/// `n`, `b`, `r` or `q`; and reading a five-character text whose last
/// letter is `n`/`N`, `b`/`B`, `r`/`R` or `q`/`Q` gives the promotion code
/// of the knight, bishop, rook or queen.
pub proof fn lemma_promotion_letters_name_pieces(m: u64, s: Seq<u8>)
    ensures
        mv_promo(m) == PieceKind::Knight.idx() ==> la_text(m).len() == 5 && la_text(m).last() == 'n',
        mv_promo(m) == PieceKind::Bishop.idx() ==> la_text(m).len() == 5 && la_text(m).last() == 'b',
        mv_promo(m) == PieceKind::Rook.idx() ==> la_text(m).len() == 5 && la_text(m).last() == 'r',
        mv_promo(m) == PieceKind::Queen.idx() ==> la_text(m).len() == 5 && la_text(m).last() == 'q',
        s.len() == 5 && la_parts(s) is Some ==> {
            let code = la_parts(s).unwrap().2;
            &&& (s[4] == 'n' as u8 || s[4] == 'N' as u8) <==> code == PieceKind::Knight.idx()
            &&& (s[4] == 'b' as u8 || s[4] == 'B' as u8) <==> code == PieceKind::Bishop.idx()
            &&& (s[4] == 'r' as u8 || s[4] == 'R' as u8) <==> code == PieceKind::Rook.idx()
            &&& (s[4] == 'q' as u8 || s[4] == 'Q' as u8) <==> code == PieceKind::Queen.idx()
        },
{
}

} // verus!
