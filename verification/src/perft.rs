//! Perft: counting the leaves of the legal move tree to a given depth,
//! with tallies of captures, en-passant captures, castles, promotions,
//! checks, discovered and double checks, and checkmates among them.

use vstd::prelude::*;
use crate::game_state::{GameState, GameStateView};
use crate::legal_move_apply::applied;
use crate::legal_move_generator::{legal_move, LegalMoveGenerator};
use crate::move_descriptions::{
    has_flag, move_promotion_piece_code, mv_promo, FLAG_CAPTURE, FLAG_CASTLING, FLAG_EN_PASSANT,
    NO_PIECE_CODE,
};
use crate::move_generator::{GeneratedMove, MoveGenResult, MoveGenerationError, MoveGenerator};

verus! {

/// Leaf counts of a perft run.
#[derive(Debug, Clone, Copy, PartialEq, Eq, Structural)]
pub struct PerftCounts {
    pub nodes: usize,
    pub captures: usize,
    pub en_passant: usize,
    pub castles: usize,
    pub promotions: usize,
    pub checks: usize,
    pub discovery_checks: usize,
    pub double_checks: usize,
    pub checkmates: usize,
}

/// All counts zero.
pub open spec fn zero_counts() -> PerftCounts {
    PerftCounts {
        nodes: 0,
        captures: 0,
        en_passant: 0,
        castles: 0,
        promotions: 0,
        checks: 0,
        discovery_checks: 0,
        double_checks: 0,
        checkmates: 0,
    }
}

/// The counts of a single node and nothing else.
pub open spec fn single_node() -> PerftCounts {
    PerftCounts { nodes: 1, ..zero_counts() }
}

/// The counts `c` after tallying leaf `mv`: one more node, and one more in
/// each category the move falls into.
pub open spec fn tallied(c: PerftCounts, mv: GeneratedMove) -> PerftCounts {
    let md = mv.move_description;
    let a = mv.annotations;
    PerftCounts {
        nodes: (c.nodes + 1) as usize,
        captures: (c.captures + if has_flag(md, FLAG_CAPTURE) { 1int } else { 0int }) as usize,
        en_passant: (c.en_passant + if has_flag(md, FLAG_EN_PASSANT) { 1int } else { 0int }) as usize,
        castles: (c.castles + if has_flag(md, FLAG_CASTLING) { 1int } else { 0int }) as usize,
        promotions: (c.promotions + if mv_promo(md) != 7 { 1int } else { 0int }) as usize,
        checks: (c.checks + if a.gives_check { 1int } else { 0int }) as usize,
        discovery_checks: (c.discovery_checks + if a.is_discovery_check { 1int } else { 0int }) as usize,
        double_checks: (c.double_checks + if a.is_double_check { 1int } else { 0int }) as usize,
        checkmates: (c.checkmates + if a.is_checkmate { 1int } else { 0int }) as usize,
    }
}

/// Every count of `c` that leaf `mv` adds to can take one more without
/// overflow.
pub open spec fn room_for_leaf(c: PerftCounts, mv: GeneratedMove) -> bool {
    let md = mv.move_description;
    let a = mv.annotations;
    &&& c.nodes < usize::MAX
    &&& has_flag(md, FLAG_CAPTURE) ==> c.captures < usize::MAX
    &&& has_flag(md, FLAG_EN_PASSANT) ==> c.en_passant < usize::MAX
    &&& has_flag(md, FLAG_CASTLING) ==> c.castles < usize::MAX
    &&& mv_promo(md) != 7 ==> c.promotions < usize::MAX
    &&& a.gives_check ==> c.checks < usize::MAX
    &&& a.is_discovery_check ==> c.discovery_checks < usize::MAX
    &&& a.is_double_check ==> c.double_checks < usize::MAX
    &&& a.is_checkmate ==> c.checkmates < usize::MAX
}

/// Field-wise sum of two count records.
pub open spec fn summed(a: PerftCounts, b: PerftCounts) -> PerftCounts {
    PerftCounts {
        nodes: (a.nodes + b.nodes) as usize,
        captures: (a.captures + b.captures) as usize,
        en_passant: (a.en_passant + b.en_passant) as usize,
        castles: (a.castles + b.castles) as usize,
        promotions: (a.promotions + b.promotions) as usize,
        checks: (a.checks + b.checks) as usize,
        discovery_checks: (a.discovery_checks + b.discovery_checks) as usize,
        double_checks: (a.double_checks + b.double_checks) as usize,
        checkmates: (a.checkmates + b.checkmates) as usize,
    }
}

/// The two count records can be added without overflow.
pub open spec fn sum_fits(a: PerftCounts, b: PerftCounts) -> bool {
    &&& a.nodes + b.nodes <= usize::MAX
    &&& a.captures + b.captures <= usize::MAX
    &&& a.en_passant + b.en_passant <= usize::MAX
    &&& a.castles + b.castles <= usize::MAX
    &&& a.promotions + b.promotions <= usize::MAX
    &&& a.checks + b.checks <= usize::MAX
    &&& a.discovery_checks + b.discovery_checks <= usize::MAX
    &&& a.double_checks + b.double_checks <= usize::MAX
    &&& a.checkmates + b.checkmates <= usize::MAX
}

/// Field-wise total of a sequence of count records.
pub open spec fn total(cs: Seq<PerftCounts>) -> PerftCounts
    decreases cs.len(),
{
    if cs.len() == 0 {
        zero_counts()
    } else {
        summed(total(cs.drop_last()), cs.last())
    }
}

/// `c` are the leaf counts below move `m` with `k` more plies to search:
/// with none left, `m` itself is the only leaf and is tallied; otherwise
/// they are the counts of the position after `m` to depth `k`.
pub open spec fn subtree_counts<G: MoveGenerator>(g: G, m: GeneratedMove, k: nat, c: PerftCounts) -> bool
    decreases k, 2int,
{
    if k == 0 {
        c == tallied(zero_counts(), m)
    } else {
        position_counts(g, m.game_after_move@, k, c)
    }
}

/// `c` are the perft counts of position `v` to depth `k` with generator
/// `g`: at depth 0 a single node; deeper, the total over a listing `ms`
/// that `g` answers for `v` of the counts `cs[i]` below each listed move
/// `ms[i]` with `k - 1` plies left.
pub open spec fn position_counts<G: MoveGenerator>(g: G, v: GameStateView, k: nat, c: PerftCounts) -> bool
    decreases k, 1int,
{
    if k == 0 {
        c == single_node()
    } else {
        exists|ms: Seq<GeneratedMove>, cs: Seq<PerftCounts>|
            #![trigger g.generates(v, ms), total(cs)]
            {
                &&& g.generates(v, ms)
                &&& cs.len() == ms.len()
                &&& forall|i: int| 0 <= i < ms.len() ==> subtree_counts(g, #[trigger] ms[i], (k - 1) as nat, cs[i])
                &&& c == total(cs)
            }
    }
}

/// Every position the search meets is answered by `g`, along some listing
/// `g` answers: the position `v` itself when plies remain (`k >= 1`), and,
/// below each listed move, the positions with `k - 1` plies left.
pub open spec fn answered_along<G: MoveGenerator>(g: G, v: GameStateView, k: nat) -> bool
    decreases k,
{
    k == 0 || (g.answers(v) && exists|ms: Seq<GeneratedMove>|
        #![trigger g.generates(v, ms)]
        g.generates(v, ms) && forall|i: int|
            0 <= i < ms.len() ==> answered_along(g, #[trigger] ms[i].game_after_move@, (k - 1) as nat))
}

/// Every position the search can meet is answered by `g`, along every
/// listing `g` may answer.
pub open spec fn answered_everywhere<G: MoveGenerator>(g: G, v: GameStateView, k: nat) -> bool
    decreases k,
{
    k == 0 || (g.answers(v) && forall|ms: Seq<GeneratedMove>, i: int|
        #![trigger g.generates(v, ms), ms[i]]
        g.generates(v, ms) && 0 <= i < ms.len() ==> answered_everywhere(
            g,
            ms[i].game_after_move@,
            (k - 1) as nat,
        ))
}

/// Counting the leaves below move `m` with `k` plies left, on top of the
/// counts `a`, makes a counter pass `usize::MAX` along some listings `g`
/// answers: at the leaf, a count the move adds to is already full.
pub open spec fn overflows_below<G: MoveGenerator>(g: G, m: GeneratedMove, k: nat, a: PerftCounts) -> bool
    decreases k, 1int,
{
    if k == 0 {
        !room_for_leaf(a, m)
    } else {
        overflows_at(g, m.game_after_move@, k, a)
    }
}

/// Counting the leaves of position `v` to depth `k` on top of the counts
/// `a` makes a counter pass `usize::MAX`: along a listing `ms` that `g`
/// answers, the moves before `ms[j]` add their counts `cs` without
/// overflow, and counting below `ms[j]` then overflows.
pub open spec fn overflows_at<G: MoveGenerator>(g: G, v: GameStateView, k: nat, a: PerftCounts) -> bool
    decreases k, 0int,
{
    k >= 1 && exists|ms: Seq<GeneratedMove>, cs: Seq<PerftCounts>|
        #![trigger g.generates(v, ms), total(cs)]
        {
            &&& g.generates(v, ms)
            &&& cs.len() < ms.len()
            &&& forall|i: int| 0 <= i < cs.len() ==> subtree_counts(g, #[trigger] ms[i], (k - 1) as nat, cs[i])
            &&& sum_fits(a, total(cs))
            &&& overflows_below(g, ms[cs.len() as int], (k - 1) as nat, summed(a, total(cs)))
        }
}

/// Perft of position `v` to depth `k` with the annotating legal move
/// generator can run: every position it meets, up to `k - 1` plies deep,
/// has generable moves whose check annotations can be computed.
pub open spec fn perft_ok(v: GameStateView, k: nat) -> bool
    decreases k,
{
    k == 0 || (LegalMoveGenerator.answers(v) && forall|m: u64|
        #[trigger] legal_move(v, m) ==> perft_ok(applied(v, m), (k - 1) as nat))
}

/// Along the legal generator, a search that met only answered positions
/// shows that perft can run.
proof fn lemma_answered_along_ok(v: GameStateView, k: nat)
    requires
        answered_along(LegalMoveGenerator, v, k),
    ensures
        perft_ok(v, k),
    decreases k,
{
    if k > 0 {
        let ms = choose|ms: Seq<GeneratedMove>|
            #![trigger LegalMoveGenerator.generates(v, ms)]
            LegalMoveGenerator.generates(v, ms) && forall|i: int|
                0 <= i < ms.len() ==> answered_along(LegalMoveGenerator, #[trigger] ms[i].game_after_move@, (k - 1) as nat);
        assert forall|m: u64| #[trigger] legal_move(v, m) implies perft_ok(applied(v, m), (k - 1) as nat) by {
            let i = choose|i: int| 0 <= i < ms.len() && ms[i].move_description == m;
            assert(ms[i].game_after_move@ == applied(v, m));
            lemma_answered_along_ok(ms[i].game_after_move@, (k - 1) as nat);
        }
    }
}

/// When perft can run, the legal generator answers every position the
/// search can meet.
proof fn lemma_ok_answered_everywhere(v: GameStateView, k: nat)
    requires
        perft_ok(v, k),
    ensures
        answered_everywhere(LegalMoveGenerator, v, k),
    decreases k,
{
    if k > 0 {
        assert forall|ms: Seq<GeneratedMove>, i: int|
            #![trigger LegalMoveGenerator.generates(v, ms), ms[i]]
            LegalMoveGenerator.generates(v, ms) && 0 <= i < ms.len() implies answered_everywhere(
                LegalMoveGenerator,
                ms[i].game_after_move@,
                (k - 1) as nat,
            ) by {
            let m = ms[i].move_description;
            assert(legal_move(v, m));
            lemma_ok_answered_everywhere(applied(v, m), (k - 1) as nat);
        }
    }
}

impl Default for PerftCounts {
    fn default() -> (r: Self)
        ensures
            r == zero_counts(),
    {
        PerftCounts {
            nodes: 0,
            captures: 0,
            en_passant: 0,
            castles: 0,
            promotions: 0,
            checks: 0,
            discovery_checks: 0,
            double_checks: 0,
            checkmates: 0,
        }
    }
}

impl PerftCounts {
    /// Add the counts of `rhs` to these.
    pub fn merge(&mut self, rhs: PerftCounts)
        requires
            sum_fits(*old(self), rhs),
        ensures
            *final(self) == summed(*old(self), rhs),
    {
        self.nodes += rhs.nodes;
        self.captures += rhs.captures;
        self.en_passant += rhs.en_passant;
        self.castles += rhs.castles;
        self.promotions += rhs.promotions;
        self.checks += rhs.checks;
        self.discovery_checks += rhs.discovery_checks;
        self.double_checks += rhs.double_checks;
        self.checkmates += rhs.checkmates;
    }
}

/// One more, when it fits.
fn bump(x: usize, yes: bool) -> (r: Option<usize>)
    ensures
        r == if !yes {
            Some(x)
        } else if x < usize::MAX {
            Some((x + 1) as usize)
        } else {
            None
        },
{
    if yes {
        x.checked_add(1)
    } else {
        Some(x)
    }
}

/// The error of a counter that would overflow.
fn overflow_error() -> (r: MoveGenerationError)
    ensures
        r matches MoveGenerationError::InvalidState(msg) && msg@ == "perft counter overflow"@,
{
    MoveGenerationError::InvalidState(String::from_str("perft counter overflow"))
}

/// Tally leaf `mv` into `counts`; fails, leaving `counts` unchanged, when a
/// count would overflow.
fn tally_leaf(mv: &GeneratedMove, counts: &mut PerftCounts) -> (r: MoveGenResult<()>)
    ensures
        r is Ok <==> room_for_leaf(*old(counts), *mv),
        r is Ok ==> *final(counts) == tallied(*old(counts), *mv),
        r is Err ==> *final(counts) == *old(counts),
{
    let md = mv.move_description;
    let a = mv.annotations;
    let c = *counts;
    let nodes = match bump(c.nodes, true) { Some(x) => x, None => { return Err(overflow_error()); } };
    let captures = match bump(c.captures, (md & FLAG_CAPTURE) != 0) {
        Some(x) => x,
        None => { return Err(overflow_error()); },
    };
    let en_passant = match bump(c.en_passant, (md & FLAG_EN_PASSANT) != 0) {
        Some(x) => x,
        None => { return Err(overflow_error()); },
    };
    let castles = match bump(c.castles, (md & FLAG_CASTLING) != 0) {
        Some(x) => x,
        None => { return Err(overflow_error()); },
    };
    let promotions = match bump(c.promotions, move_promotion_piece_code(md) != NO_PIECE_CODE) {
        Some(x) => x,
        None => { return Err(overflow_error()); },
    };
    let checks = match bump(c.checks, a.gives_check) {
        Some(x) => x,
        None => { return Err(overflow_error()); },
    };
    let discovery_checks = match bump(c.discovery_checks, a.is_discovery_check) {
        Some(x) => x,
        None => { return Err(overflow_error()); },
    };
    let double_checks = match bump(c.double_checks, a.is_double_check) {
        Some(x) => x,
        None => { return Err(overflow_error()); },
    };
    let checkmates = match bump(c.checkmates, a.is_checkmate) {
        Some(x) => x,
        None => { return Err(overflow_error()); },
    };
    *counts = PerftCounts {
        nodes,
        captures,
        en_passant,
        castles,
        promotions,
        checks,
        discovery_checks,
        double_checks,
        checkmates,
    };
    Ok(())
}

/// Adding a tallied leaf is adding its own counts.
proof fn lemma_tally_as_sum(c: PerftCounts, m: GeneratedMove)
    requires
        room_for_leaf(c, m),
    ensures
        tallied(c, m) == summed(c, tallied(zero_counts(), m)),
        sum_fits(c, tallied(zero_counts(), m)),
{
}

/// Adding two records in turn is adding their total, when nothing
/// overflows.
proof fn lemma_sum_step(a: PerftCounts, t: PerftCounts, x: PerftCounts)
    requires
        sum_fits(a, t),
        sum_fits(summed(a, t), x),
    ensures
        summed(summed(a, t), x) == summed(a, summed(t, x)),
        sum_fits(a, summed(t, x)),
{
}

/// The total of a listing with one more record.
proof fn lemma_total_push(cs: Seq<PerftCounts>, x: PerftCounts)
    ensures
        total(cs.push(x)) == summed(total(cs), x),
{
    assert(cs.push(x).drop_last() =~= cs);
}

/// Count the leaves below `mv` (reached at `current_depth`) down to
/// `search_depth`, adding them to `counts`.
///
/// At the search depth the move itself is the leaf and is tallied;
/// otherwise the generator's moves from the position after `mv` are
/// explored in turn, and its first failure is returned. On success the
/// counts grew by the counts below `mv`, without overflow.
pub fn perft_recurse<G: MoveGenerator>(
    generator: &G,
    mv: &GeneratedMove,
    search_depth: u8,
    current_depth: u8,
    counts: &mut PerftCounts,
) -> (r: MoveGenResult<()>)
    requires
        current_depth <= search_depth,
    ensures
        current_depth == search_depth ==> (r is Ok <==> room_for_leaf(*old(counts), *mv)),
        current_depth == search_depth && r is Ok ==> *final(counts) == tallied(*old(counts), *mv),
        r is Ok ==> exists|c: PerftCounts|
            #![trigger subtree_counts(*generator, *mv, (search_depth - current_depth) as nat, c)]
            subtree_counts(*generator, *mv, (search_depth - current_depth) as nat, c)
                && *final(counts) == summed(*old(counts), c) && sum_fits(*old(counts), c),
        r is Ok ==> answered_along(*generator, mv.game_after_move@, (search_depth - current_depth) as nat),
        r is Err ==> overflows_below(*generator, *mv, (search_depth - current_depth) as nat, *old(counts))
            || !answered_everywhere(*generator, mv.game_after_move@, (search_depth - current_depth) as nat),
    decreases search_depth - current_depth,
{
    let ghost c0 = *counts;
    let ghost k: nat = (search_depth - current_depth) as nat;
    if current_depth == search_depth {
        let r = tally_leaf(mv, counts);
        proof {
            if r is Ok {
                lemma_tally_as_sum(c0, *mv);
                assert(subtree_counts(*generator, *mv, k, tallied(zero_counts(), *mv)));
            }
        }
        return r;
    }
    let moves = match generator.generate_legal_moves(&mv.game_after_move) {
        Ok(m) => m,
        Err(e) => {
            return Err(e);
        },
    };
    let ghost v = mv.game_after_move@;
    let ghost mut cs: Seq<PerftCounts> = Seq::empty();
    let mut i: usize = 0;
    while i < moves.len()
        invariant
            i <= moves.len(),
            current_depth < search_depth,
            k == (search_depth - current_depth) as nat,
            v == mv.game_after_move@,
            c0 == *old(counts),
            generator.answers(v),
            generator.generates(v, moves@),
            cs.len() == i,
            forall|j: int| 0 <= j < i ==> subtree_counts(*generator, #[trigger] moves@[j], (k - 1) as nat, cs[j]),
            forall|j: int| 0 <= j < i ==> answered_along(*generator, (#[trigger] moves@[j]).game_after_move@, (k - 1) as nat),
            *counts == summed(c0, total(cs)),
            sum_fits(c0, total(cs)),
        decreases moves.len() - i,
    {
        let ghost before = *counts;
        match perft_recurse(generator, &moves[i], search_depth, current_depth + 1, counts) {
            Ok(()) => {},
            Err(e) => {
                proof {
                    let mi = moves@[i as int];
                    if overflows_below(*generator, mi, (k - 1) as nat, before) {
                        assert(generator.generates(v, moves@) && total(cs) == total(cs));
                        assert(overflows_at(*generator, v, k, c0));
                    } else {
                        if answered_everywhere(*generator, v, k) {
                            assert(generator.generates(v, moves@) && moves@[i as int] == mi);
                        }
                    }
                }
                return Err(e);
            },
        }
        proof {
            let ci = choose|c: PerftCounts|
                #![trigger subtree_counts(*generator, moves@[i as int], (k - 1) as nat, c)]
                subtree_counts(*generator, moves@[i as int], (k - 1) as nat, c) && *counts == summed(before, c)
                    && sum_fits(before, c);
            lemma_sum_step(c0, total(cs), ci);
            lemma_total_push(cs, ci);
            cs = cs.push(ci);
        }
        i = i + 1;
    }
    proof {
        assert(moves@.len() == cs.len());
        assert(generator.generates(v, moves@) && total(cs) == total(cs));
        assert(position_counts(*generator, v, k, total(cs)));
        assert(subtree_counts(*generator, *mv, k, total(cs)));
        assert(answered_along(*generator, v, k));
    }
    Ok(())
}

/// The total of a count record and nothing else is that record.
proof fn lemma_sum_from_zero(t: PerftCounts)
    ensures
        summed(zero_counts(), t) == t,
{
}

/// Perft from `game_state` to `depth` with `generator`, on one thread.
///
/// Depth 0 counts the position itself as a single node; deeper, the
/// result is the total over the generated moves of the counts below each.
pub fn perft_single_thread<G: MoveGenerator>(generator: &G, game_state: &GameState, depth: u8) -> (r:
    MoveGenResult<PerftCounts>)
    ensures
        depth == 0 ==> r == Ok::<PerftCounts, MoveGenerationError>(single_node()),
        r matches Ok(c) ==> position_counts(*generator, game_state@, depth as nat, c),
        r is Ok ==> answered_along(*generator, game_state@, depth as nat),
        r is Err ==> overflows_at(*generator, game_state@, depth as nat, zero_counts()) || !answered_everywhere(
            *generator,
            game_state@,
            depth as nat,
        ),
{
    if depth == 0 {
        let zero = PerftCounts::default();
        return Ok(PerftCounts { nodes: 1, ..zero });
    }
    let root_moves = match generator.generate_legal_moves(game_state) {
        Ok(m) => m,
        Err(e) => {
            return Err(e);
        },
    };
    let ghost k: nat = depth as nat;
    let ghost v = game_state@;
    let ghost mut cs: Seq<PerftCounts> = Seq::empty();
    let mut total_counts = PerftCounts::default();
    let mut i: usize = 0;
    while i < root_moves.len()
        invariant
            i <= root_moves.len(),
            depth >= 1,
            k == depth as nat,
            v == game_state@,
            generator.answers(v),
            forall|j: int| 0 <= j < i ==> answered_along(*generator, (#[trigger] root_moves@[j]).game_after_move@, (k - 1) as nat),
            generator.generates(game_state@, root_moves@),
            cs.len() == i,
            forall|j: int| 0 <= j < i ==> subtree_counts(*generator, #[trigger] root_moves@[j], (k - 1) as nat, cs[j]),
            total_counts == summed(zero_counts(), total(cs)),
            sum_fits(zero_counts(), total(cs)),
        decreases root_moves.len() - i,
    {
        let ghost before = total_counts;
        match perft_recurse(generator, &root_moves[i], depth, 1, &mut total_counts) {
            Ok(()) => {},
            Err(e) => {
                proof {
                    let mi = root_moves@[i as int];
                    if overflows_below(*generator, mi, (k - 1) as nat, before) {
                        assert(generator.generates(v, root_moves@) && total(cs) == total(cs));
                        assert(overflows_at(*generator, v, k, zero_counts()));
                    } else {
                        if answered_everywhere(*generator, v, k) {
                            assert(generator.generates(v, root_moves@) && root_moves@[i as int] == mi);
                        }
                    }
                }
                return Err(e);
            },
        }
        proof {
            let ci = choose|c: PerftCounts|
                #![trigger subtree_counts(*generator, root_moves@[i as int], (k - 1) as nat, c)]
                subtree_counts(*generator, root_moves@[i as int], (k - 1) as nat, c) && total_counts
                    == summed(before, c) && sum_fits(before, c);
            lemma_sum_step(zero_counts(), total(cs), ci);
            lemma_total_push(cs, ci);
            cs = cs.push(ci);
        }
        i = i + 1;
    }
    proof {
        lemma_sum_from_zero(total(cs));
        assert(generator.generates(game_state@, root_moves@) && total(cs) == total(cs));
        assert(answered_along(*generator, v, k));
    }
    Ok(total_counts)
}

/// Perft from `game_state` to `depth` with `generator`.
pub fn perft<G: MoveGenerator>(generator: &G, game_state: &GameState, depth: u8) -> (r: MoveGenResult<
    PerftCounts,
>)
    ensures
        depth == 0 ==> r == Ok::<PerftCounts, MoveGenerationError>(single_node()),
        r matches Ok(c) ==> position_counts(*generator, game_state@, depth as nat, c),
        r is Ok ==> answered_along(*generator, game_state@, depth as nat),
        r is Err ==> overflows_at(*generator, game_state@, depth as nat, zero_counts()) || !answered_everywhere(
            *generator,
            game_state@,
            depth as nat,
        ),
{
    perft_single_thread(generator, game_state, depth)
}

/// Perft with the annotating legal move generator: it succeeds exactly
/// when every position met has generable, annotatable moves (`perft_ok`)
/// and no counter passes `usize::MAX`, and then gives the counts.
pub fn perft_legal(game_state: &GameState, depth: u8) -> (r: MoveGenResult<PerftCounts>)
    ensures
        depth == 0 ==> r == Ok::<PerftCounts, MoveGenerationError>(single_node()),
        r matches Ok(c) ==> position_counts(LegalMoveGenerator, game_state@, depth as nat, c),
        r is Ok ==> perft_ok(game_state@, depth as nat),
        perft_ok(game_state@, depth as nat) && !overflows_at(
            LegalMoveGenerator,
            game_state@,
            depth as nat,
            zero_counts(),
        ) ==> r is Ok,
{
    let generator = LegalMoveGenerator;
    let r = perft(&generator, game_state, depth);
    proof {
        if r is Ok {
            lemma_answered_along_ok(game_state@, depth as nat);
        }
        if perft_ok(game_state@, depth as nat) {
            lemma_ok_answered_everywhere(game_state@, depth as nat);
        }
    }
    r
}

} // verus!
