//! Occupancy masks in the square-vector (file-major) layout used by the
//! `BoardLocation` move generators.

use vstd::prelude::*;
use crate::bits::{bit, lemma_mask_ops, lemma_bit_ops};
use crate::game_state::{GameState, GameStateView};

verus! {

/// The rank-major index (`8 * rank + file`) of file-major square `t`
/// (`8 * file + rank`).
pub open spec fn rank_major(t: u64) -> u64 {
    (8 * (t % 8) + t / 8) as u64
}

/// `m` is the file-major form of the rank-major board `occ`.
pub open spec fn is_file_major_of(m: u64, occ: u64) -> bool {
    forall|t: u64| t < 64 ==> (#[trigger] bit(m, t) <==> bit(occ, rank_major(t)))
}

/// The file-major form of a rank-major board.
pub open spec fn file_major(occ: u64) -> u64 {
    choose|m: u64| is_file_major_of(m, occ)
}

/// The file-major form is unique.
pub proof fn lemma_file_major_unique(a: u64, b: u64, occ: u64)
    requires
        is_file_major_of(a, occ),
        is_file_major_of(b, occ),
    ensures
        a == b,
{
    assert forall|i: u64| i < 64 implies bit(a, i) == bit(b, i) by {
        assert(bit(a, i) == bit(occ, rank_major(i)));
        assert(bit(b, i) == bit(occ, rank_major(i)));
    }
    crate::bits::lemma_bits_ext(a, b);
}

/// The masks of a position view.
pub open spec fn masks_of(g: GameStateView) -> CollisionMasks {
    CollisionMasks { light_mask: file_major(g.occupancy_by_color[0]), dark_mask: file_major(g.occupancy_by_color[1]) }
}

/// Re-lay a rank-major bitboard in file-major order.
pub fn file_major_mask(occ: u64) -> (r: u64)
    ensures
        is_file_major_of(r, occ),
        r == file_major(occ),
{
    let mut r: u64 = 0;
    let mut t: u64 = 0;
    proof {
        assert forall|u: u64| u < 64 implies !#[trigger] bit(0u64, u) by {
            lemma_bit_ops(0, 0, u);
        }
    }
    while t < 64
        invariant
            t <= 64,
            forall|u: u64| u < t ==> (#[trigger] bit(r, u) <==> bit(occ, rank_major(u))),
            forall|u: u64| t <= u < 64 ==> !#[trigger] bit(r, u),
        decreases 64 - t,
    {
        let s: u64 = 8 * (t % 8) + t / 8;
        let old_r = r;
        if (occ >> s) & 1u64 == 1u64 {
            r = r | (1u64 << t);
        }
        proof {
            assert forall|u: u64| u < 64 implies (#[trigger] bit(r, u) <==> (bit(old_r, u) || (u == t
                && bit(occ, s)))) by {
                lemma_mask_ops(old_r, t, u);
            }
        }
        t = t + 1;
    }
    proof {
        assert(is_file_major_of(r, occ));
        lemma_file_major_unique(r, file_major(occ), occ);
    }
    r
}

/// Which squares each side occupies, file-major.
#[derive(Debug, Clone, Copy)]
pub struct CollisionMasks {
    pub light_mask: u64,
    pub dark_mask: u64,
}

impl CollisionMasks {
    /// The occupancy masks of a position: Light's and Dark's occupied
    /// squares, re-laid file-major.
    pub fn from(game: &GameState) -> (r: Self)
        ensures
            is_file_major_of(r.light_mask, game.occupancy_by_color[0]),
            is_file_major_of(r.dark_mask, game.occupancy_by_color[1]),
            r == masks_of(game@),
    {
        CollisionMasks {
            light_mask: file_major_mask(game.occupancy_by_color[0]),
            dark_mask: file_major_mask(game.occupancy_by_color[1]),
        }
    }
}

} // verus!
