//! A chess square held as a one-hot `u64` in file-major order: bit
//! `8 * file + rank` (a1 is bit 0, a8 bit 7, b1 bit 8, h8 bit 63).

use vstd::prelude::*;
use crate::bits::{bit, lemma_square_mask};
use crate::chess_errors::ChessErrors;
use crate::text::{trim_str, trimmed_bytes, trim_chars, file_letter, digit_str};

verus! {

broadcast use vstd::std_specs::bits::axiom_u64_leading_zeros;

/// Underlying binary location representation.
pub type BinaryLocation = u64;

/// A square on the board as a one-hot bitboard.
#[derive(Clone, Copy, Debug)]
pub struct BoardLocation {
    pub binary_location: BinaryLocation,
}

/// Index of the highest set bit of a nonzero word.
pub open spec fn top_bit(x: u64) -> int {
    63 - vstd::std_specs::bits::u64_leading_zeros(x)
}

impl BoardLocation {
    /// File (0..8) of the location: its highest set bit divided by 8.
    pub open spec fn file_of(self) -> int {
        top_bit(self.binary_location) / 8
    }

    /// Rank (0..8) of the location: its highest set bit modulo 8.
    pub open spec fn rank_of(self) -> int {
        top_bit(self.binary_location) % 8
    }

    /// The location one-hot at file `f`, rank `r`.
    pub open spec fn at(f: int, r: int) -> BoardLocation {
        BoardLocation { binary_location: 1u64 << ((8 * f + r) as u64) }
    }
}

/// The highest set bit of a one-hot word is its set bit.
pub proof fn lemma_top_bit_single(k: u64)
    requires
        k < 64,
    ensures
        top_bit(1u64 << k) == k,
        (1u64 << k) != 0,
{
    let x = 1u64 << k;
    lemma_square_mask(k, k);
    let lz = vstd::std_specs::bits::u64_leading_zeros(x);
    let t = (63 - lz) as u64;
    assert(0 <= lz < 64);
    assert((x >> t) & 1u64 != 0u64);
    lemma_square_mask(k, t);
    assert(bit(x, t) <==> k == t) ;
    assert((x >> t) & 1u64 != 0u64 ==> (x >> t) & 1u64 == 1u64) by (bit_vector);
}

/// Convert algebraic file and rank characters to zero-based indices.
pub fn parse_square(file: char, rank: char) -> (r: Result<(u8, u8), ChessErrors>)
    ensures
        ('a' <= file <= 'h' && '1' <= rank <= '8') ==> r == Ok::<(u8, u8), ChessErrors>(
            ((file as u32 - 97) as u8, (rank as u32 - 49) as u8),
        ),
        !('a' <= file <= 'h') ==> r == Err::<(u8, u8), ChessErrors>(
            ChessErrors::InvalidAlgebraicChar(file),
        ),
        ('a' <= file <= 'h' && !('1' <= rank <= '8')) ==> r == Err::<(u8, u8), ChessErrors>(
            ChessErrors::InvalidAlgebraicChar(rank),
        ),
{
    let file_idx = if 'a' <= file && file <= 'h' {
        (file as u32 - 97) as u8
    } else {
        return Err(ChessErrors::InvalidAlgebraicChar(file));
    };
    let rank_idx = if '1' <= rank && rank <= '8' {
        (rank as u32 - 49) as u8
    } else {
        return Err(ChessErrors::InvalidAlgebraicChar(rank));
    };
    Ok((file_idx, rank_idx))
}


/// A byte that names a file (`a`..`h`).
pub open spec fn is_file_byte(b: u8) -> bool {
    97 <= b <= 104
}

/// A byte that names a rank (`1`..`8`).
pub open spec fn is_rank_byte(b: u8) -> bool {
    49 <= b <= 56
}

/// The two-character name of the square at file `f`, rank `r`.
pub open spec fn square_name(f: int, r: int) -> Seq<char> {
    seq![(f + 97) as char, (r + 49) as char]
}

impl BoardLocation {
    /// Moving by `(df, dr)` with the bounds check neither overflows `i8`
    /// nor reads an empty location.
    pub open spec fn checked_move_defined(self, df: int, dr: int) -> bool {
        &&& self.binary_location != 0
        &&& self.file_of() + df <= 127
        &&& 0 <= self.file_of() + df <= 7 ==> self.rank_of() + dr <= 127
    }

    /// The result of moving by `(d_file, d_rank)` with the bounds check.
    pub open spec fn checked_move(self, d_file: i8, d_rank: i8) -> Result<BoardLocation, ChessErrors> {
        if 0 <= self.file_of() + d_file <= 7 && 0 <= self.rank_of() + d_rank <= 7 {
            Ok(BoardLocation::at(self.file_of() + d_file, self.rank_of() + d_rank))
        } else {
            Err(ChessErrors::TriedToMoveOutOfBounds((self, d_file, d_rank)))
        }
    }

    /// Create a location from algebraic notation (e.g. "e4"); surrounding
    /// whitespace is ignored.
    pub fn from_long_algebraic(x: &str) -> (r: Result<Self, ChessErrors>)
        ensures
            trimmed_bytes(x).len() != 2 ==> (r matches Err(ChessErrors::InvalidAlgebraicString(s))
                && s@ == trim_chars(x@)),
            trimmed_bytes(x).len() == 2 && !is_file_byte(trimmed_bytes(x)[0]) ==> r == Err::<
                BoardLocation,
                ChessErrors,
            >(ChessErrors::InvalidAlgebraicChar(trimmed_bytes(x)[0] as char)),
            trimmed_bytes(x).len() == 2 && is_file_byte(trimmed_bytes(x)[0]) && !is_rank_byte(
                trimmed_bytes(x)[1],
            ) ==> r == Err::<BoardLocation, ChessErrors>(
                ChessErrors::InvalidAlgebraicChar(trimmed_bytes(x)[1] as char),
            ),
            trimmed_bytes(x).len() == 2 && is_file_byte(trimmed_bytes(x)[0]) && is_rank_byte(
                trimmed_bytes(x)[1],
            ) ==> r == Ok::<BoardLocation, ChessErrors>(
                BoardLocation::at(trimmed_bytes(x)[0] - 97, trimmed_bytes(x)[1] - 49),
            ),
    {
        let t = trim_str(x);
        if t.len() != 2 {
            return Err(ChessErrors::InvalidAlgebraicString(t.to_owned()));
        }
        let bytes = t.as_bytes();
        let b0 = bytes[0];
        let b1 = bytes[1];
        match parse_square(b0 as char, b1 as char) {
            Ok((file, rank)) => BoardLocation::from_file_rank(file, rank),
            Err(e) => Err(e),
        }
    }

    /// Convert the location to algebraic notation (e.g. "e4").
    pub fn to_long_algebraic(&self) -> (r: String)
        requires
            self.binary_location != 0,
        ensures
            r@ == square_name(self.file_of(), self.rank_of()),
    {
        let (file, rank) = self.get_file_rank();
        let mut s = String::new();
        s.append(file_letter(file));
        s.append(digit_str(rank + 1));
        s
    }

    /// Create a location from zero-based file and rank indices (0 to 7 each);
    /// any other index is an `InvalidFileOrRank` error carrying both.
    pub fn from_file_rank(file: u8, rank: u8) -> (r: Result<Self, ChessErrors>)
        ensures
            file <= 7 && rank <= 7 ==> r == Ok::<BoardLocation, ChessErrors>(
                BoardLocation::at(file as int, rank as int),
            ),
            !(file <= 7 && rank <= 7) ==> r == Err::<BoardLocation, ChessErrors>(
                ChessErrors::InvalidFileOrRank((file, rank)),
            ),
    {
        if file < 8 && rank < 8 {
            Ok(BoardLocation { binary_location: 1u64 << (8 * file + rank) })
        } else {
            Err(ChessErrors::InvalidFileOrRank((file, rank)))
        }
    }

    /// File and rank indices of the location (from its highest set bit).
    pub fn get_file_rank(&self) -> (r: (u8, u8))
        requires
            self.binary_location != 0,
        ensures
            r.0 == self.file_of(),
            r.1 == self.rank_of(),
            r.0 < 8,
            r.1 < 8,
    {
        let lz = self.binary_location.leading_zeros();
        let bit_spot: u32 = 63 - lz;
        ((bit_spot / 8) as u8, (bit_spot % 8) as u8)
    }

    /// The location moved by `(d_file, d_rank)`, or an error when that
    /// leaves the board.
    pub fn generate_moved_location_checked(&self, d_file: i8, d_rank: i8) -> (r: Result<
        BoardLocation,
        ChessErrors,
    >)
        requires
            self.checked_move_defined(d_file as int, d_rank as int),
        ensures
            r == self.checked_move(d_file, d_rank),
    {
        let (f, r) = self.get_file_rank();
        let f_next = f as i8 + d_file;
        if f_next < 0 || f_next > 7 {
            return Err(ChessErrors::TriedToMoveOutOfBounds((*self, d_file, d_rank)));
        }
        let r_next = r as i8 + d_rank;
        if r_next < 0 || r_next > 7 {
            return Err(ChessErrors::TriedToMoveOutOfBounds((*self, d_file, d_rank)));
        }
        BoardLocation::from_file_rank(f_next as u8, r_next as u8)
    }

    /// The location shifted by `8 * d_file + d_rank` bits (computed in `i8`,
    /// with `d_file * 8` wrapping) without any bounds check.
    pub fn generate_moved_location_without_validation(&self, d_file: i8, d_rank: i8) -> (r:
        BoardLocation)
        requires
            i8::MIN <= vstd::wrapping::i8_specs::wrapping_mul(d_file, 8) + d_rank <= i8::MAX,
            vstd::wrapping::i8_specs::wrapping_mul(d_file, 8) + d_rank != i8::MIN,
        ensures
            ({
                let s = vstd::wrapping::i8_specs::wrapping_mul(d_file, 8) + d_rank;
                r.binary_location == if s >= 0 {
                    self.binary_location << ((s as u32) % 64)
                } else {
                    self.binary_location >> ((-s) as u32 % 64)
                }
            }),
    {
        let shift_amount: i8 = d_file.wrapping_mul(8) + d_rank;
        let new_location = if shift_amount >= 0 {
            self.binary_location.wrapping_shl(shift_amount as u32)
        } else {
            self.binary_location.wrapping_shr((-shift_amount) as u32)
        };
        BoardLocation { binary_location: new_location }
    }
}

/// Square naming and location conversions are inverse: the name produced
/// for the location at file `f`, rank `r` trims to itself, encodes to two
/// valid file/rank bytes, and those bytes name the same location; and the
/// location's file and rank are `f` and `r`.
pub proof fn lemma_location_name_roundtrip(f: int, r: int)
    requires
        0 <= f < 8,
        0 <= r < 8,
    ensures
        BoardLocation::at(f, r).binary_location != 0,
        BoardLocation::at(f, r).file_of() == f,
        BoardLocation::at(f, r).rank_of() == r,
        trim_chars(square_name(f, r)) == square_name(f, r),
        vstd::utf8::encode_utf8(trim_chars(square_name(f, r))) =~= seq![
            (f + 97) as u8,
            (r + 49) as u8,
        ],
        is_file_byte((f + 97) as u8),
        is_rank_byte((r + 49) as u8),
        BoardLocation::at(((f + 97) as u8) - 97, ((r + 49) as u8) - 49) == BoardLocation::at(
            f,
            r,
        ),
{
    lemma_top_bit_single((8 * f + r) as u64);
    let s = square_name(f, r);
    crate::text::lemma_trim_no_space(s);
    assert(vstd::utf8::is_ascii_chars(s));
    vstd::utf8::is_ascii_chars_encode_utf8(s);
}

} // verus!
