//! Bitboard primitives: the meaning of a bit, and the facts about `&`, `|`,
//! `!`, `^`, single-square masks and lowest-bit iteration that the rest of the
//! library relies on.

use vstd::prelude::*;

verus! {

broadcast use vstd::std_specs::bits::axiom_u64_trailing_zeros;

/// Whether square `i` is set in bitboard `b`.
pub open spec fn bit(b: u64, i: u64) -> bool {
    (b >> i) & 1u64 == 1u64
}

/// Bitwise connectives, bit by bit.
pub proof fn lemma_bit_ops(a: u64, b: u64, i: u64)
    by (bit_vector)
    requires
        i < 64,
    ensures
        bit(a | b, i) <==> (bit(a, i) || bit(b, i)),
        bit(a & b, i) <==> (bit(a, i) && bit(b, i)),
        bit(a & !b, i) <==> (bit(a, i) && !bit(b, i)),
        bit(!a, i) <==> !bit(a, i),
        bit(a ^ b, i) <==> (bit(a, i) != bit(b, i)),
        !bit(0u64, i),
        bit(0xffff_ffff_ffff_ffffu64, i),
{
}

/// A single-square mask has exactly that square set.
pub proof fn lemma_square_mask(i: u64, j: u64)
    by (bit_vector)
    requires
        i < 64,
        j < 64,
    ensures
        bit(1u64 << i, j) <==> i == j,
        (1u64 << i) != 0u64,
{
}

/// Testing, setting and clearing one square with a mask.
pub proof fn lemma_mask_ops(b: u64, s: u64, j: u64)
    by (bit_vector)
    requires
        s < 64,
        j < 64,
    ensures
        (b & (1u64 << s)) != 0 <==> bit(b, s),
        bit(b & !(1u64 << s), j) <==> (bit(b, j) && j != s),
        bit(b | (1u64 << s), j) <==> (bit(b, j) || j == s),
{
}

/// Clearing the lowest set bit with `b & (b - 1)`.
pub proof fn lemma_clear_lowest_raw(b: u64, t: u64, j: u64)
    by (bit_vector)
    requires
        b != 0,
        t < 64,
        j < 64,
        (b >> t) & 1u64 == 1u64,
        b << ((64 - t) as u64) == 0,
    ensures
        bit(b & ((b - 1) as u64), j) <==> (j != t && bit(b, j)),
        j < t ==> !bit(b, j),
{
}

/// Clearing the lowest bit makes the word smaller.
pub proof fn lemma_clear_lowest_smaller(b: u64)
    by (bit_vector)
    requires
        b != 0,
    ensures
        b & ((b - 1) as u64) < b,
{
}

/// The lowest set bit of a nonzero bitboard, and what `b & (b - 1)` keeps.
pub proof fn lemma_lowest_bit(b: u64)
    requires
        b != 0,
    ensures
        (b.trailing_zeros() as u64) < 64,
        bit(b, b.trailing_zeros() as u64),
        forall|j: u64| j < b.trailing_zeros() ==> !bit(b, j),
        forall|j: u64|
            j < 64 ==> (#[trigger] bit(b & ((b - 1) as u64), j) <==> (j != b.trailing_zeros() as u64
                && bit(b, j))),
{
    let t = b.trailing_zeros() as u64;
    assert forall|j: u64| j < 64 implies (#[trigger] bit(b & ((b - 1) as u64), j) <==> (j != t && bit(
        b,
        j,
    ))) by {
        lemma_clear_lowest_raw(b, t, j);
    }
    assert forall|j: u64| j < t implies !bit(b, j) by {
        lemma_clear_lowest_raw(b, t, j);
    }
}

/// Whether two bitboards share a square.
pub fn intersects(a: u64, b: u64) -> (r: bool)
    ensures
        r == exists|t: u64| t < 64 && bit(a, t) && bit(b, t),
{
    let x = a & b;
    proof {
        lemma_zero_iff_empty(x);
        assert forall|t: u64| t < 64 implies bit(x, t) == (bit(a, t) && bit(b, t)) by {
            lemma_bit_ops(a, b, t);
        }
    }
    x != 0
}

/// Two bitboards that agree on every square are equal.
pub proof fn lemma_bits_ext(a: u64, b: u64)
    requires
        forall|i: u64| i < 64 ==> bit(a, i) == bit(b, i),
    ensures
        a == b,
{
    let x = a ^ b;
    if x != 0 {
        let t = x.trailing_zeros() as u64;
        lemma_bit_ops(a, b, t);
        assert(bit(a, t) == bit(b, t));
        assert(false);
    }
    assert(a ^ b == 0u64 ==> a == b) by (bit_vector);
}

/// A bitboard is zero exactly when it marks no square.
pub proof fn lemma_zero_iff_empty(b: u64)
    ensures
        b == 0 <==> forall|i: u64| i < 64 ==> !bit(b, i),
{
    if b == 0 {
        assert forall|i: u64| i < 64 implies !bit(b, i) by {
            lemma_bit_ops(b, b, i);
        }
    } else {
        let t = b.trailing_zeros() as u64;
        assert(bit(b, t));
    }
}

/// Number of squares below `n` set in `b`.
pub open spec fn popcount(b: u64, n: nat) -> nat
    decreases n,
{
    if n == 0 {
        0
    } else {
        popcount(b, (n - 1) as nat) + if bit(b, (n - 1) as u64) {
            1nat
        } else {
            0nat
        }
    }
}

/// A count of squares is at most the number of squares looked at.
pub proof fn lemma_popcount_bound(b: u64, n: nat)
    ensures
        popcount(b, n) <= n,
    decreases n,
{
    if n > 0 {
        lemma_popcount_bound(b, (n - 1) as nat);
    }
}

/// Number of squares set in a bitboard.
pub fn count_bits(b: u64) -> (r: u32)
    ensures
        r == popcount(b, 64),
        r <= 64,
{
    let mut n: u32 = 0;
    let mut sq: u64 = 0;
    while sq < 64
        invariant
            sq <= 64,
            n == popcount(b, sq as nat),
            n <= sq,
        decreases 64 - sq,
    {
        if (b >> sq) & 1 == 1 {
            n = n + 1;
        }
        sq = sq + 1;
    }
    n
}

} // verus!
