//! Configuration of the iterative-deepening engine, version 10, and its
//! preference for queen promotions.

use vstd::prelude::*;
use crate::legal_move_generator::FastLegalMoveGenerator;
use crate::move_descriptions::{move_from, move_promotion_piece_code, move_to, mv_from, mv_promo, mv_to, piece_kind_from_code};
use crate::chess_types::{kind_of_index, PieceKind};
use crate::engine_options::{
    named, truthy, usize_text, invalid_value_text, eq_ignore_ascii_case, is_truthy,
    parse_usize_value, invalid_value,
};
use crate::text::trimmed_bytes;

verus! {

/// Which material table the engine scores with.
#[derive(Debug, Clone, Copy, PartialEq, Eq, Structural)]
pub enum IterativeScorerKind {
    Standard,
    AlphaZero,
}

/// `m` promotes to a queen.
pub open spec fn is_queen_promotion(m: u64) -> bool {
    kind_of_index(mv_promo(m) as int) == Some(PieceKind::Queen)
}

/// `m` promotes to some piece.
pub open spec fn is_promotion(m: u64) -> bool {
    kind_of_index(mv_promo(m) as int) is Some
}

/// The first move of `s` with the origin and destination of `m`.
pub open spec fn first_same_squares(s: Seq<u64>, m: u64) -> Option<u64>
    decreases s.len(),
{
    if s.len() == 0 {
        None
    } else if mv_from(s[0]) == mv_from(m) && mv_to(s[0]) == mv_to(m) {
        Some(s[0])
    } else {
        first_same_squares(s.drop_first(), m)
    }
}

/// The queen promotions among `s`, in order.
pub open spec fn queen_promotions_of(s: Seq<u64>) -> Seq<u64> {
    s.filter(|m: u64| is_queen_promotion(m))
}

/// The move played instead of `chosen` when queen promotions are available:
/// `chosen` itself if it promotes to a queen or none is available; for
/// another promotion, the queen promotion on the same squares if any;
/// otherwise the first queen promotion.
pub open spec fn preferred_promotion(chosen: u64, legal: Seq<u64>) -> u64 {
    let queens = queen_promotions_of(legal);
    if queens.len() == 0 || is_queen_promotion(chosen) {
        chosen
    } else if is_promotion(chosen) && first_same_squares(queens, chosen) is Some {
        first_same_squares(queens, chosen).unwrap()
    } else {
        queens[0]
    }
}

/// The iterative-deepening engine, version 10.
pub struct IterativeEngine {
    default_depth: u8,
    move_generator: FastLegalMoveGenerator,
    scorer_kind: IterativeScorerKind,
    use_own_book: bool,
    hash_mb: usize,
}

impl IterativeEngine {
    /// The search depth used when a request names none.
    pub closed spec fn default_depth_of(self) -> u8 {
        self.default_depth
    }

    /// The material table the engine scores with.
    pub closed spec fn scorer_kind_of(self) -> IterativeScorerKind {
        self.scorer_kind
    }

    /// Whether the opening book is consulted.
    pub closed spec fn uses_own_book(self) -> bool {
        self.use_own_book
    }

    /// The transposition-table size in MiB.
    pub closed spec fn hash_mb_of(self) -> usize {
        self.hash_mb
    }

    pub fn new(default_depth: u8) -> (r: Self)
        ensures
            r.default_depth_of() == default_depth,
            r.scorer_kind_of() == IterativeScorerKind::Standard,
            r.uses_own_book(),
            r.hash_mb_of() == 64,
    {
        Self::new_with_scorer(default_depth, IterativeScorerKind::Standard)
    }

    pub fn new_standard(default_depth: u8) -> (r: Self)
        ensures
            r.default_depth_of() == default_depth,
            r.scorer_kind_of() == IterativeScorerKind::Standard,
            r.uses_own_book(),
            r.hash_mb_of() == 64,
    {
        Self::new_with_scorer(default_depth, IterativeScorerKind::Standard)
    }

    pub fn new_alpha_zero(default_depth: u8) -> (r: Self)
        ensures
            r.default_depth_of() == default_depth,
            r.scorer_kind_of() == IterativeScorerKind::AlphaZero,
            r.uses_own_book(),
            r.hash_mb_of() == 64,
    {
        Self::new_with_scorer(default_depth, IterativeScorerKind::AlphaZero)
    }

    pub fn new_with_scorer(default_depth: u8, scorer_kind: IterativeScorerKind) -> (r: Self)
        ensures
            r.default_depth_of() == default_depth,
            r.scorer_kind_of() == scorer_kind,
            r.uses_own_book(),
            r.hash_mb_of() == 64,
    {
        let hash_mb = 64usize;
        IterativeEngine {
            default_depth,
            move_generator: FastLegalMoveGenerator,
            scorer_kind,
            use_own_book: true,
            hash_mb,
        }
    }

    /// Apply a UCI option (names compared ignoring ASCII case): `OwnBook`
    /// takes a yes/no word; `Hash` an unsigned number, kept at least 1, and
    /// is refused with a message naming the value when it is not one;
    /// other names are accepted and ignored.
    pub fn set_option(&mut self, name: &str, value: &str) -> (r: Result<(), String>)
        ensures
            final(self).default_depth_of() == old(self).default_depth_of(),
            final(self).scorer_kind_of() == old(self).scorer_kind_of(),
            named(name, "OwnBook") ==> r is Ok && final(self).uses_own_book() == truthy(value)
                && final(self).hash_mb_of() == old(self).hash_mb_of(),
            !named(name, "OwnBook") && named(name, "Hash") ==> match usize_text(trimmed_bytes(value)) {
                Some(n) => r is Ok && final(self).hash_mb_of() == (if n < 1 { 1 } else { n })
                    && final(self).uses_own_book() == old(self).uses_own_book(),
                None => (r matches Err(e) && e@ == invalid_value_text("Hash"@, value@))
                    && final(self).uses_own_book() == old(self).uses_own_book()
                    && final(self).hash_mb_of() == old(self).hash_mb_of(),
            },
            !named(name, "OwnBook") && !named(name, "Hash") ==> r is Ok
                && final(self).uses_own_book() == old(self).uses_own_book()
                && final(self).hash_mb_of() == old(self).hash_mb_of(),
    {
        if eq_ignore_ascii_case(name, "OwnBook") {
            self.use_own_book = is_truthy(value);
            return Ok(());
        }
        if eq_ignore_ascii_case(name, "Hash") {
            let parsed = match parse_usize_value(value) {
                Some(n) => n,
                None => {
                    return Err(invalid_value("Hash", value));
                },
            };
            self.hash_mb = if parsed < 1 { 1 } else { parsed };
            return Ok(());
        }
        Ok(())
    }
}

/// Whether `mv` promotes to some piece.
pub fn is_any_promotion_move(mv: u64) -> (r: bool)
    ensures
        r == is_promotion(mv),
{
    piece_kind_from_code(move_promotion_piece_code(mv)).is_some()
}

/// Whether `mv` promotes to a queen.
pub fn is_queen_promotion_move(mv: u64) -> (r: bool)
    ensures
        r == is_queen_promotion(mv),
{
    match piece_kind_from_code(move_promotion_piece_code(mv)) {
        Some(PieceKind::Queen) => true,
        _ => false,
    }
}

/// Replace `chosen` by a queen promotion when the position offers one (see
/// `preferred_promotion`).
pub fn prefer_queen_promotion(chosen: u64, legal_moves: &[u64]) -> (r: u64)
    ensures
        r == preferred_promotion(chosen, legal_moves@),
{
    let mut queen_promotions: Vec<u64> = Vec::new();
    let mut i: usize = 0;
    while i < legal_moves.len()
        invariant
            i <= legal_moves.len(),
            queen_promotions@ == queen_promotions_of(legal_moves@.subrange(0, i as int)),
        decreases legal_moves.len() - i,
    {
        let m = legal_moves[i];
        let ghost before = queen_promotions@;
        if is_queen_promotion_move(m) {
            queen_promotions.push(m);
        }
        proof {
            let t = legal_moves@.subrange(0, i + 1);
            assert(t.drop_last() =~= legal_moves@.subrange(0, i as int));
            assert(t.last() == m);
            reveal(Seq::filter);
            assert(queen_promotions_of(t) == if is_queen_promotion(m) {
                before.push(m)
            } else {
                before
            });
        }
        i = i + 1;
    }
    proof {
        assert(legal_moves@.subrange(0, legal_moves@.len() as int) =~= legal_moves@);
        assert(queen_promotions@ == queen_promotions_of(legal_moves@));
    }
    if queen_promotions.len() == 0 {
        return chosen;
    }
    if is_queen_promotion_move(chosen) {
        return chosen;
    }
    if is_any_promotion_move(chosen) {
        let from = move_from(chosen);
        let to = move_to(chosen);
        let mut j: usize = 0;
        proof {
            assert(queen_promotions@.skip(0) =~= queen_promotions@);
        }
        while j < queen_promotions.len()
            invariant
                j <= queen_promotions.len(),
                queen_promotions@ == queen_promotions_of(legal_moves@),
                queen_promotions@.len() > 0,
                !is_queen_promotion(chosen),
                is_promotion(chosen),
                from == mv_from(chosen),
                to == mv_to(chosen),
                first_same_squares(queen_promotions@, chosen) == first_same_squares(
                    queen_promotions@.skip(j as int),
                    chosen,
                ),
            decreases queen_promotions.len() - j,
        {
            let q = queen_promotions[j];
            proof {
                assert(queen_promotions@.skip(j as int).drop_first() =~= queen_promotions@.skip(j + 1));
            }
            if move_from(q) == from && move_to(q) == to {
                assert(queen_promotions@.skip(j as int)[0] == q);
                assert(queen_promotions@.skip(j as int).len() > 0);
                assert(first_same_squares(queen_promotions@.skip(j as int), chosen) == Some(q));
                return q;
            }
            j = j + 1;
        }
        proof {
            assert(queen_promotions@.skip(j as int) =~= Seq::<u64>::empty());
        }
    }
    queen_promotions[0]
}

} // verus!
