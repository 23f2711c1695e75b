//! The iterative-deepening engine, version 17, and its endgame helpers:
//! threefold-repetition avoidance, a low-material gate, and an exact
//! king-and-pawn-versus-king solver.

use vstd::prelude::*;
use std::collections::{HashMap, HashSet};
use crate::bits::{count_bits, popcount};
use crate::chess_types::{Color, PieceKind};
use crate::engine_iterative_v16::{is_checkmate, option_applied, IterativeEngine as IterativeEngineV16, IterativeScorerKind};
use crate::game_state::{GameState, GameStateView};
use crate::legal_move_apply::{applied, apply_move, make_overflows};
use crate::legal_move_checks::{is_king_in_check, king_in_check};
use crate::info_line_scan::{chars_of, find_from, first_word_after, i32_text, lemma_find_from_occurs, occurs_at, parse_i32_chars, find_phrase, word_after};
use crate::legal_move_generator::{applicable, generate_legal_move_descriptions_in_place, generation_ok, has_legal_move, legal_move, lemma_pseudo_move_facts};

verus! {

broadcast use vstd::std_specs::hash::group_hash_axioms;

/// The iterative-deepening engine, version 17: version 16 with endgame
/// refinements.
pub struct IterativeEngineV17 {
    inner: IterativeEngineV16,
}

impl IterativeEngineV17 {
    /// The wrapped version-16 engine.
    pub closed spec fn inner_of(self) -> IterativeEngineV16 {
        self.inner
    }

    pub fn new(default_depth: u8) -> (r: Self)
        ensures
            r.inner_of().default_depth_of() == default_depth,
            r.inner_of().scorer_kind_of() == IterativeScorerKind::AlphaZero,
            r.inner_of().settings_of() == IterativeEngineV16::initial_settings(),
    {
        Self::new_with_scorer(default_depth, IterativeScorerKind::AlphaZero)
    }

    pub fn new_standard(default_depth: u8) -> (r: Self)
        ensures
            r.inner_of().default_depth_of() == default_depth,
            r.inner_of().scorer_kind_of() == IterativeScorerKind::Standard,
            r.inner_of().settings_of() == IterativeEngineV16::initial_settings(),
    {
        Self::new_with_scorer(default_depth, IterativeScorerKind::Standard)
    }

    pub fn new_alpha_zero(default_depth: u8) -> (r: Self)
        ensures
            r.inner_of().default_depth_of() == default_depth,
            r.inner_of().scorer_kind_of() == IterativeScorerKind::AlphaZero,
            r.inner_of().settings_of() == IterativeEngineV16::initial_settings(),
    {
        Self::new_with_scorer(default_depth, IterativeScorerKind::AlphaZero)
    }

    pub fn new_with_scorer(default_depth: u8, scorer_kind: IterativeScorerKind) -> (r: Self)
        ensures
            r.inner_of().default_depth_of() == default_depth,
            r.inner_of().scorer_kind_of() == scorer_kind,
            r.inner_of().settings_of() == IterativeEngineV16::initial_settings(),
    {
        IterativeEngineV17 { inner: IterativeEngineV16::new_with_scorer(default_depth, scorer_kind) }
    }

    /// Apply a UCI option to the wrapped engine.
    pub fn set_option(&mut self, name: &str, value: &str) -> (r: Result<(), String>)
        ensures
            final(self).inner_of().default_depth_of() == old(self).inner_of().default_depth_of(),
            final(self).inner_of().scorer_kind_of() == old(self).inner_of().scorer_kind_of(),
            match option_applied(old(self).inner_of().settings_of(), name, value) {
                Ok(s2) => r is Ok && final(self).inner_of().settings_of() == s2,
                Err(msg) => (r matches Err(e) && e@ == msg) && final(self).inner_of().settings_of()
                    == old(self).inner_of().settings_of(),
            },
    {
        self.inner.set_option(name, value)
    }
}

/// Number of entries of `s` equal to `k`.
pub open spec fn occurrences(s: Seq<u64>, k: u64) -> nat
    decreases s.len(),
{
    if s.len() == 0 {
        0
    } else {
        occurrences(s.drop_last(), k) + if s.last() == k {
            1nat
        } else {
            0nat
        }
    }
}

/// After `mv` the position's key has occurred three times.
pub open spec fn threefold_after(v: GameStateView, mv: u64) -> bool {
    applicable(v, mv) && occurrences(applied(v, mv).repetition_history, applied(v, mv).zobrist_key) >= 3
}

/// Whether playing `mv` would make the resulting position occur a third
/// time.
pub fn would_be_threefold_after_move(game_state: &GameState, mv: u64) -> (r: bool)
    requires
        !make_overflows(game_state@, mv),
    ensures
        r == threefold_after(game_state@, mv),
        r <==> applicable(game_state@, mv) && occurrences(
            game_state@.repetition_history,
            applied(game_state@, mv).zobrist_key,
        ) >= 2,
{
    proof {
        lemma_threefold_counts_earlier_occurrences(game_state@, mv);
    }
    let next = match apply_move(game_state, mv) {
        Ok(n) => n,
        Err(_) => {
            return false;
        },
    };
    let current = next.zobrist_key;
    let mut count: u64 = 0;
    let mut i: usize = 0;
    while i < next.repetition_history.len()
        invariant
            i <= next.repetition_history.len(),
            count == occurrences(next.repetition_history@.subrange(0, i as int), current),
            count <= i,
        decreases next.repetition_history.len() - i,
    {
        proof {
            assert(next.repetition_history@.subrange(0, i + 1).drop_last() =~= next.repetition_history@.subrange(
                0,
                i as int,
            ));
        }
        if next.repetition_history[i] == current {
            count = count + 1;
        }
        i = i + 1;
    }
    proof {
        assert(next.repetition_history@.subrange(0, i as int) =~= next.repetition_history@);
    }
    count >= 3
}

/// Whether the side to move in `next` is checkmated.
pub fn is_mate_for_side_to_move(next: &GameState) -> (r: bool)
    ensures
        r == is_checkmate(next@),
{
    let mut probe = next.clone();
    let replies = match generate_legal_move_descriptions_in_place(&mut probe) {
        Ok(v) => v,
        Err(_) => {
            return false;
        },
    };
    proof {
        if replies.len() > 0 {
            assert(replies@.contains(replies@[0]));
        } else {
            assert forall|m: u64| !legal_move(next@, m) by {
                if legal_move(next@, m) {
                    assert(replies@.contains(m));
                }
            }
        }
    }
    replies.len() == 0 && is_king_in_check(next, next.side_to_move)
}

/// Number of pieces of side `c` of kind index `ki`.
pub open spec fn piece_count(v: GameStateView, c: Color, ki: int) -> int {
    popcount(v.pieces[c.idx() as int][ki], 64) as int
}

/// Centipawn material value used by the endgame helpers.
pub open spec fn endgame_value(ki: int) -> int {
    if ki == 0 {
        100
    } else if ki == 1 {
        350
    } else if ki == 2 {
        325
    } else if ki == 3 {
        500
    } else if ki == 4 {
        975
    } else {
        0
    }
}

/// Material of side `c` minus that of its opponent.
pub open spec fn material_balance(v: GameStateView, c: Color) -> int {
    let d = |ki: int| endgame_value(ki) * (piece_count(v, c, ki) - piece_count(v, c.other(), ki));
    d(0) + d(1) + d(2) + d(3) + d(4)
}

/// Material of `color` minus that of its opponent, in centipawns.
pub fn material_score_for_color(game_state: &GameState, color: Color) -> (r: i32)
    ensures
        r == material_balance(game_state@, color),
        -374400 <= r <= 374400,
{
    let us = color.index();
    let them = color.opposite().index();
    let mut score: i32 = 0;
    let values: [i32; 6] = [100, 350, 325, 500, 975, 0];
    let mut code: usize = 0;
    while code < 6
        invariant
            code <= 6,
            us == color.idx(),
            them == color.other().idx(),
            values@ == seq![100i32, 350, 325, 500, 975, 0],
            score == (if code > 0 { endgame_value(0) * (piece_count(game_state@, color, 0) - piece_count(game_state@, color.other(), 0)) } else { 0 })
                + (if code > 1 { endgame_value(1) * (piece_count(game_state@, color, 1) - piece_count(game_state@, color.other(), 1)) } else { 0 })
                + (if code > 2 { endgame_value(2) * (piece_count(game_state@, color, 2) - piece_count(game_state@, color.other(), 2)) } else { 0 })
                + (if code > 3 { endgame_value(3) * (piece_count(game_state@, color, 3) - piece_count(game_state@, color.other(), 3)) } else { 0 })
                + (if code > 4 { endgame_value(4) * (piece_count(game_state@, color, 4) - piece_count(game_state@, color.other(), 4)) } else { 0 }),
            -62400 * (code as int) <= score <= 62400 * (code as int),
        decreases 6 - code,
    {
        let mine = count_bits(game_state.pieces[us][code]) as i32;
        let theirs = count_bits(game_state.pieces[them][code]) as i32;
        let value = values[code];
        assert(value * mine <= 62400 && value * theirs <= 62400) by (nonlinear_arith)
            requires
                0 <= value <= 975,
                0 <= mine <= 64,
                0 <= theirs <= 64,
        ;
        assert(value * mine - value * theirs == value * (mine - theirs)) by (nonlinear_arith);
        assert(value == endgame_value(code as int));
        score = score + value * mine;
        score = score - value * theirs;
        code = code + 1;
    }
    score
}

/// Total number of pieces of kind index `ki`, both sides.
pub open spec fn total_count(v: GameStateView, ki: int) -> int {
    piece_count(v, Color::Light, ki) + piece_count(v, Color::Dark, ki)
}

/// Low material: at most six pieces besides the kings, at most one queen.
pub open spec fn conservative_endgame(v: GameStateView) -> bool {
    total_count(v, 0) + total_count(v, 1) + total_count(v, 2) + total_count(v, 3) + total_count(v, 4) <= 6
        && total_count(v, 4) <= 1
}

/// Number of pieces of `color` on board `ki`.
fn count_of(game_state: &GameState, color: Color, ki: usize) -> (r: u32)
    requires
        ki < 6,
    ensures
        r == piece_count(game_state@, color, ki as int),
        r <= 64,
{
    count_bits(game_state.pieces[color.index()][ki])
}

/// Whether the position has low material (see `conservative_endgame`).
pub fn is_conservative_endgame(game_state: &GameState) -> (r: bool)
    ensures
        r == conservative_endgame(game_state@),
{
    let mut non_king_count: u32 = 0;
    let mut ki: usize = 0;
    while ki < 5
        invariant
            ki <= 5,
            non_king_count <= 128 * ki,
            non_king_count == (if ki > 0 { total_count(game_state@, 0) } else { 0 }) + (if ki > 1 {
                total_count(game_state@, 1)
            } else {
                0
            }) + (if ki > 2 { total_count(game_state@, 2) } else { 0 }) + (if ki > 3 {
                total_count(game_state@, 3)
            } else {
                0
            }) + (if ki > 4 { total_count(game_state@, 4) } else { 0 }),
        decreases 5 - ki,
    {
        non_king_count = non_king_count + count_of(game_state, Color::Light, ki) + count_of(game_state, Color::Dark, ki);
        ki = ki + 1;
    }
    let queen_count = count_of(game_state, Color::Light, 4) + count_of(game_state, Color::Dark, 4);
    non_king_count <= 6 && queen_count <= 1
}

/// The result of a king-and-pawn-versus-king position for the side to move.
#[derive(Debug, Clone, Copy, PartialEq, Eq, Structural)]
pub enum KpkOutcome {
    Win,
    Draw,
    Loss,
}

/// The outcome seen from the other side.
pub open spec fn inverted(o: KpkOutcome) -> KpkOutcome {
    match o {
        KpkOutcome::Win => KpkOutcome::Loss,
        KpkOutcome::Loss => KpkOutcome::Win,
        KpkOutcome::Draw => KpkOutcome::Draw,
    }
}

/// The outcome seen from the other side.
pub fn invert_kpk(outcome: KpkOutcome) -> (r: KpkOutcome)
    ensures
        r == inverted(outcome),
{
    match outcome {
        KpkOutcome::Win => KpkOutcome::Loss,
        KpkOutcome::Loss => KpkOutcome::Win,
        KpkOutcome::Draw => KpkOutcome::Draw,
    }
}

/// The side owning the only pawn, when the board holds exactly one pawn and
/// no piece besides it and the kings.
pub open spec fn kpk_side(v: GameStateView) -> Option<Color> {
    let pawns = total_count(v, 0);
    let others = total_count(v, 1) + total_count(v, 2) + total_count(v, 3) + total_count(v, 4);
    if pawns == 1 && others == 0 {
        if piece_count(v, Color::Dark, 0) > 0 {
            Some(Color::Dark)
        } else {
            Some(Color::Light)
        }
    } else {
        None
    }
}

/// The side owning the only pawn of a king-and-pawn-versus-king position.
pub fn kpk_pawn_color(game_state: &GameState) -> (r: Option<Color>)
    ensures
        r == kpk_side(game_state@),
{
    let light_pawns = count_of(game_state, Color::Light, 0);
    let dark_pawns = count_of(game_state, Color::Dark, 0);
    let mut others: u32 = 0;
    let mut ki: usize = 1;
    while ki < 5
        invariant
            1 <= ki <= 5,
            others <= 128 * ki,
            others == (if ki > 1 { total_count(game_state@, 1) } else { 0 }) + (if ki > 2 {
                total_count(game_state@, 2)
            } else {
                0
            }) + (if ki > 3 { total_count(game_state@, 3) } else { 0 }) + (if ki > 4 {
                total_count(game_state@, 4)
            } else {
                0
            }),
        decreases 5 - ki,
    {
        others = others + count_of(game_state, Color::Light, ki) + count_of(game_state, Color::Dark, ki);
        ki = ki + 1;
    }
    if light_pawns + dark_pawns == 1 && others == 0 {
        if dark_pawns > 0 {
            Some(Color::Dark)
        } else {
            Some(Color::Light)
        }
    } else {
        None
    }
}

/// Side `color` has a knight, bishop, rook or queen.
pub open spec fn promoted_material(v: GameStateView, color: Color) -> bool {
    let b = v.pieces[color.idx() as int];
    b[4] != 0 || b[3] != 0 || b[2] != 0 || b[1] != 0
}

/// Whether `color` has a knight, bishop, rook or queen.
pub fn has_promoted_material(game_state: &GameState, color: Color) -> (r: bool)
    ensures
        r == promoted_material(game_state@, color),
{
    let idx = color.index();
    game_state.pieces[idx][PieceKind::Queen.index()] != 0 || game_state.pieces[idx][PieceKind::Rook.index()] != 0
        || game_state.pieces[idx][PieceKind::Bishop.index()] != 0
        || game_state.pieces[idx][PieceKind::Knight.index()] != 0
}

/// `after` keeps every entry of `before`, and adds only keys outside `busy`.
pub open spec fn memo_grows(before: Map<u64, KpkOutcome>, after: Map<u64, KpkOutcome>, busy: Set<u64>) -> bool {
    &&& forall|k: u64| #[trigger] before.contains_key(k) ==> after.contains_key(k) && after[k] == before[k]
    &&& forall|k: u64| #[trigger] after.contains_key(k) && !before.contains_key(k) ==> !busy.contains(k)
}

/// The outcome for the mover of legal move `m` of `v` when the move leaves
/// the king-and-pawn ending: a win when the pawn's side moved and now has
/// promoted material, a loss when its opponent moved into that, a draw
/// otherwise.
pub open spec fn kpk_exit_outcome(v: GameStateView, m: u64) -> KpkOutcome {
    match kpk_side(v) {
        Some(pc) => if promoted_material(applied(v, m), pc) {
            if v.side_to_move == pc {
                KpkOutcome::Win
            } else {
                KpkOutcome::Loss
            }
        } else {
            KpkOutcome::Draw
        },
        None => KpkOutcome::Draw,
    }
}

/// The outcome for the mover of move `m` of `v` as far as it is known
/// from `memo`: the exit outcome when the move leaves the ending,
/// otherwise the stored outcome of the position reached, seen from the
/// other side; `None` when that position is not stored.
pub open spec fn kpk_child_outcome(v: GameStateView, m: u64, memo: Map<u64, KpkOutcome>) -> Option<KpkOutcome> {
    let n = applied(v, m);
    if kpk_side(n) is None {
        Some(kpk_exit_outcome(v, m))
    } else if memo.contains_key(n.zobrist_key) {
        Some(inverted(memo[n.zobrist_key]))
    } else {
        None
    }
}

/// The position is searched afresh: below the depth limit, not solved in
/// `memo`, not on the current line, and its moves can be generated.
pub open spec fn kpk_fresh(v: GameStateView, memo: Map<u64, KpkOutcome>, visiting: Set<u64>, depth: int) -> bool {
    &&& depth < 96
    &&& !memo.contains_key(v.zobrist_key)
    &&& !visiting.contains(v.zobrist_key)
    &&& generation_ok(v)
}

/// `l` lists the legal moves of `v`, each once.
pub open spec fn legal_listing(v: GameStateView, l: Seq<u64>) -> bool {
    &&& l.no_duplicates()
    &&& forall|m: u64| #[trigger] l.contains(m) <==> legal_move(v, m)
}

/// A child search answered outcome `o` and left the memo `memo`.
pub open spec fn kpk_child_result(o: KpkOutcome, memo: Map<u64, KpkOutcome>) -> bool {
    true
}

/// The exact search of a king-and-pawn-versus-king position `v` at ply
/// `depth`, with memo `memo` (outcomes by key) and the keys `visiting` on
/// the current line, can answer `r` and leave the memo `memo_out`: at the
/// depth limit a draw; a stored position its outcome; a position on the
/// line a draw; a position whose moves cannot be generated a draw; no
/// legal move a loss in check and a draw otherwise, stored; otherwise the
/// scan of its legal moves in some listing.
pub open spec fn kpk_search(
    v: GameStateView,
    memo: Map<u64, KpkOutcome>,
    visiting: Set<u64>,
    depth: int,
    r: KpkOutcome,
    memo_out: Map<u64, KpkOutcome>,
) -> bool
    decreases 96 - depth, 1int, 0int,
{
    let key = v.zobrist_key;
    if depth >= 96 {
        r == KpkOutcome::Draw && memo_out == memo
    } else if memo.contains_key(key) {
        r == memo[key] && memo_out == memo
    } else if visiting.contains(key) {
        r == KpkOutcome::Draw && memo_out == memo
    } else if !generation_ok(v) {
        r == KpkOutcome::Draw && memo_out == memo
    } else if !has_legal_move(v) {
        r == (if king_in_check(v, v.side_to_move) {
            KpkOutcome::Loss
        } else {
            KpkOutcome::Draw
        }) && memo_out == memo.insert(key, r)
    } else {
        exists|l: Seq<u64>|
            #![trigger legal_listing(v, l)]
            legal_listing(v, l) && kpk_scan(v, l, 0, memo, visiting.insert(key), depth, false, r, memo_out)
    }
}

/// Scanning the moves `l[i..]` of `v` (searched at ply `depth` with the
/// keys `busy` on the line) with memo `memo`, having seen a drawing move
/// when `saw_draw`, can answer `r` and leave `memo_out`: a move that
/// leaves the ending gives its exit outcome; any other is searched one
/// ply deeper and its outcome inverted. The first winning move stops the
/// scan with a win; at the end the answer is a draw when a drawing move
/// was seen and a loss otherwise. The answer is stored for `v`.
pub open spec fn kpk_scan(
    v: GameStateView,
    l: Seq<u64>,
    i: int,
    memo: Map<u64, KpkOutcome>,
    busy: Set<u64>,
    depth: int,
    saw_draw: bool,
    r: KpkOutcome,
    memo_out: Map<u64, KpkOutcome>,
) -> bool
    decreases 96 - depth, 0int, l.len() - i,
{
    let key = v.zobrist_key;
    if i < 0 || i >= l.len() {
        let res = if saw_draw {
            KpkOutcome::Draw
        } else {
            KpkOutcome::Loss
        };
        r == res && memo_out == memo.insert(key, res)
    } else if depth >= 96 {
        false
    } else {
        let m = l[i];
        let n = applied(v, m);
        if kpk_side(n) is None {
            let our = kpk_exit_outcome(v, m);
            if our == KpkOutcome::Win {
                r == KpkOutcome::Win && memo_out == memo.insert(key, KpkOutcome::Win)
            } else {
                kpk_scan(v, l, i + 1, memo, busy, depth, saw_draw || our == KpkOutcome::Draw, r, memo_out)
            }
        } else {
            exists|child: KpkOutcome, memo2: Map<u64, KpkOutcome>|
                #![trigger kpk_child_result(child, memo2)]
                kpk_child_result(child, memo2) && kpk_search(n, memo, busy, depth + 1, child, memo2) && if inverted(
                    child,
                ) == KpkOutcome::Win {
                    r == KpkOutcome::Win && memo_out == memo2.insert(key, KpkOutcome::Win)
                } else {
                    kpk_scan(
                        v,
                        l,
                        i + 1,
                        memo2,
                        busy,
                        depth,
                        saw_draw || inverted(child) == KpkOutcome::Draw,
                        r,
                        memo_out,
                    )
                }
        }
    }
}

/// The outcome for the side to move of a king-and-pawn-versus-king
/// position, searched exactly to 96 plies with a memo of solved positions
/// (by key) and the set of positions on the current line.
///
/// A position at the depth limit, or already on the line, counts as a
/// draw; a solved position gives its stored outcome; no legal move is a
/// loss in check and a draw otherwise; a move that leaves the ending wins
/// for the pawn's side when it has promoted material, and draws otherwise.
/// The moves are tried in turn and the first that wins decides; a
/// position searched afresh is stored with its outcome, and every win or
/// loss returned is stored. A position reached again through the memo or
/// on the current line takes the outcome found there, so the result
/// depends on the memo and the line, not on the position alone.
#[verifier::spinoff_prover]
#[verifier::rlimit(40)]
pub fn solve_kpk_outcome(
    game_state: &GameState,
    memo: &mut HashMap<u64, KpkOutcome>,
    visiting: &mut HashSet<u64>,
    depth: u16,
) -> (r: KpkOutcome)
    ensures
        final(visiting)@ == old(visiting)@,
        memo_grows(old(memo)@, final(memo)@, old(visiting)@),
        depth >= 96 ==> r == KpkOutcome::Draw && final(memo)@ == old(memo)@,
        kpk_search(game_state@, old(memo)@, old(visiting)@, depth as int, r, final(memo)@),
        depth < 96 && old(memo)@.contains_key(game_state.zobrist_key) ==> r == old(memo)@[game_state.zobrist_key]
            && final(memo)@ == old(memo)@,
        depth < 96 && !old(memo)@.contains_key(game_state.zobrist_key) && old(visiting)@.contains(
            game_state.zobrist_key,
        ) ==> r == KpkOutcome::Draw && final(memo)@ == old(memo)@,
        r != KpkOutcome::Draw ==> final(memo)@.contains_key(game_state.zobrist_key)
            && final(memo)@[game_state.zobrist_key] == r,
        kpk_fresh(game_state@, old(memo)@, old(visiting)@, depth as int) ==> final(memo)@.contains_key(
            game_state.zobrist_key,
        ) && final(memo)@[game_state.zobrist_key] == r,
        kpk_fresh(game_state@, old(memo)@, old(visiting)@, depth as int) && !has_legal_move(game_state@)
            ==> r == if king_in_check(game_state@, game_state@.side_to_move) {
            KpkOutcome::Loss
        } else {
            KpkOutcome::Draw
        },
        kpk_fresh(game_state@, old(memo)@, old(visiting)@, depth as int) && r == KpkOutcome::Win ==> exists|m: u64|
            #[trigger] legal_move(game_state@, m) && kpk_child_outcome(game_state@, m, final(memo)@) == Some(
                KpkOutcome::Win,
            ),
        kpk_fresh(game_state@, old(memo)@, old(visiting)@, depth as int) && r == KpkOutcome::Loss ==> forall|m: u64|
            #[trigger] legal_move(game_state@, m) ==> kpk_child_outcome(game_state@, m, final(memo)@) == Some(
                KpkOutcome::Loss,
            ),
        kpk_fresh(game_state@, old(memo)@, old(visiting)@, depth as int) && r != KpkOutcome::Win ==> forall|m: u64|
            #[trigger] legal_move(game_state@, m) && (kpk_side(applied(game_state@, m)) is None || depth + 1 < 96)
                ==> kpk_child_outcome(game_state@, m, old(memo)@) != Some(KpkOutcome::Win),
    decreases 96 - depth,
{
    let key = game_state.zobrist_key;
    if depth >= 96 {
        return KpkOutcome::Draw;
    }
    match memo.get(&key) {
        Some(cached) => {
            return *cached;
        },
        None => {},
    }
    if !visiting.insert(key) {
        proof {
            assert(visiting@ =~= old(visiting)@);
        }
        return KpkOutcome::Draw;
    }
    let ghost memo0 = memo@;
    let ghost busy = visiting@;
    let ghost v = game_state@;
    let mut probe = game_state.clone();
    let legal = match generate_legal_move_descriptions_in_place(&mut probe) {
        Ok(v) => v,
        Err(_) => {
            visiting.remove(&key);
            proof {
                assert(visiting@ =~= old(visiting)@);
            }
            return KpkOutcome::Draw;
        },
    };
    if legal.len() == 0 {
        let outcome = if is_king_in_check(game_state, game_state.side_to_move) {
            KpkOutcome::Loss
        } else {
            KpkOutcome::Draw
        };
        proof {
            assert forall|m: u64| !legal_move(v, m) by {
                if legal_move(v, m) {
                    assert(legal@.contains(m));
                }
            }
        }
        memo.insert(key, outcome);
        visiting.remove(&key);
        proof {
            assert(visiting@ =~= old(visiting)@);
        }
        return outcome;
    }
    let pawn_color = kpk_pawn_color(game_state);
    let mut saw_draw = false;
    let mut i: usize = 0;
    proof {
        assert forall|k: int| 0 <= k < legal@.len() implies legal_move(game_state@, #[trigger] legal@[k]) by {
            assert(legal@.contains(legal@[k]));
        }        assert(legal_listing(v, legal@));
        assert(legal_move(v, legal@[0]));
    }
    while i < legal.len()
        invariant
            i <= legal.len(),
            depth < 96,
            v == game_state@,
            key == game_state.zobrist_key,
            pawn_color == kpk_side(v),
            busy == old(visiting)@.insert(key),
            !old(visiting)@.contains(key),
            !old(memo)@.contains_key(key),
            memo0 == old(memo)@,
            visiting@ == busy,
            memo_grows(memo0, memo@, busy),
            forall|k: int| 0 <= k < legal@.len() ==> legal_move(game_state@, #[trigger] legal@[k]),
            legal_listing(v, legal@),
            generation_ok(v),
            has_legal_move(v),
            forall|rr: KpkOutcome, mm: Map<u64, KpkOutcome>|
                #[trigger] kpk_scan(v, legal@, i as int, memo@, busy, depth as int, saw_draw, rr, mm) ==> kpk_scan(
                    v,
                    legal@,
                    0,
                    memo0,
                    busy,
                    depth as int,
                    false,
                    rr,
                    mm,
                ),
            !saw_draw ==> forall|j: int| 0 <= j < i ==> kpk_child_outcome(v, #[trigger] legal@[j], memo@) == Some(
                KpkOutcome::Loss,
            ),
            forall|j: int| 0 <= j < i && (kpk_side(applied(v, #[trigger] legal@[j])) is None || depth + 1 < 96)
                ==> kpk_child_outcome(v, legal@[j], memo0) != Some(KpkOutcome::Win),
        decreases legal.len() - i,
    {
        let mv = legal[i];
        proof {
            crate::legal_move_generator::lemma_pseudo_move_facts(game_state@, mv);
        }
        let next = match apply_move(game_state, mv) {
            Ok(n) => n,
            Err(_) => {
                proof {
                    assert(legal_move(v, mv));
                    assert(false);
                }
                i = i + 1;
                continue;
            },
        };
        let ghost memo_before = memo@;
        let leaves = kpk_pawn_color(&next).is_none();
        let child = if leaves {
            match pawn_color {
                Some(pc) => {
                    if has_promoted_material(&next, pc) {
                        if game_state.side_to_move == pc {
                            KpkOutcome::Loss
                        } else {
                            KpkOutcome::Win
                        }
                    } else {
                        KpkOutcome::Draw
                    }
                },
                None => KpkOutcome::Draw,
            }
        } else {
            solve_kpk_outcome(&next, memo, visiting, depth + 1)
        };
        proof {
            assert forall|k: u64| #[trigger] memo0.contains_key(k) implies memo@.contains_key(k) && memo@[k] == memo0[k] by {
                assert(memo_before.contains_key(k));
            }
            assert forall|k: u64| #[trigger] memo@.contains_key(k) && !memo0.contains_key(k) implies !busy.contains(k) by {
                if memo_before.contains_key(k) {
                } else {
                }
            }
            assert forall|k: u64| #[trigger] memo_before.contains_key(k) implies memo@.contains_key(k) && memo@[k] == memo_before[k] by {
            }
            if !saw_draw {
                assert forall|j: int| 0 <= j < i implies kpk_child_outcome(v, #[trigger] legal@[j], memo@) == Some(
                    KpkOutcome::Loss,
                ) by {
                    assert(kpk_child_outcome(v, legal@[j], memo_before) == Some(KpkOutcome::Loss));
                }
            }
        }
        let our = invert_kpk(child);
        proof {
            if !leaves {
                assert(kpk_child_result(child, memo@));
            }
        }
        if our == KpkOutcome::Win {
            proof {
                assert(!memo@.contains_key(key));
                assert(kpk_child_outcome(v, mv, memo@) == Some(KpkOutcome::Win));
                assert(kpk_scan(v, legal@, i as int, memo_before, busy, depth as int, saw_draw, KpkOutcome::Win, memo@.insert(key, KpkOutcome::Win)));
            }
            memo.insert(key, KpkOutcome::Win);
            visiting.remove(&key);
            proof {
                assert(visiting@ =~= old(visiting)@);
                assert forall|k: u64| #[trigger] old(memo)@.contains_key(k) implies memo@.contains_key(k) && memo@[k] == old(memo)@[k] by {
                }
                assert(kpk_child_outcome(v, mv, memo@) == Some(KpkOutcome::Win));
                assert(legal_move(v, mv));
            }
            return KpkOutcome::Win;
        }
        let ghost saw_old = saw_draw;
        if our == KpkOutcome::Draw {
            saw_draw = true;
        }
        proof {
            assert forall|rr: KpkOutcome, mm: Map<u64, KpkOutcome>|
                #[trigger] kpk_scan(v, legal@, i + 1, memo@, busy, depth as int, saw_draw, rr, mm) implies kpk_scan(
                v,
                legal@,
                0,
                memo0,
                busy,
                depth as int,
                false,
                rr,
                mm,
            ) by {
                assert(kpk_scan(v, legal@, i as int, memo_before, busy, depth as int, saw_old, rr, mm));
            }
            if !saw_draw {
                assert(kpk_child_outcome(v, mv, memo@) == Some(KpkOutcome::Loss));
            }
            if kpk_side(applied(v, mv)) is None || depth + 1 < 96 {
                assert(kpk_child_outcome(v, mv, memo0) != Some(KpkOutcome::Win));
            }
        }
        i = i + 1;
    }
    let result = if saw_draw {
        KpkOutcome::Draw
    } else {
        KpkOutcome::Loss
    };
    proof {
        assert(!memo@.contains_key(key));
    }
    let ghost memo_last = memo@;
    memo.insert(key, result);
    visiting.remove(&key);
    proof {
        assert(kpk_scan(v, legal@, legal@.len() as int, memo_last, busy, depth as int, saw_draw, result, memo@));
        assert(legal_listing(v, legal@));
        assert(visiting@ =~= old(visiting)@);
        assert(legal_move(v, legal@[0]));
        assert forall|m: u64| #[trigger] legal_move(v, m) implies exists|j: int| 0 <= j < legal@.len() && legal@[j] == m by {
            assert(legal@.contains(m));
        }
        if !saw_draw {
            assert forall|m: u64| #[trigger] legal_move(v, m) implies kpk_child_outcome(v, m, memo@) == Some(
                KpkOutcome::Loss,
            ) by {
                let j = choose|j: int| 0 <= j < legal@.len() && legal@[j] == m;
                assert(kpk_child_outcome(v, legal@[j], memo_last) == Some(KpkOutcome::Loss));
            }
        }
        assert forall|m: u64| #[trigger] legal_move(v, m) && (kpk_side(applied(v, m)) is None || depth + 1 < 96)
            implies kpk_child_outcome(v, m, old(memo)@) != Some(KpkOutcome::Win) by {
            let j = choose|j: int| 0 <= j < legal@.len() && legal@[j] == m;
            assert(kpk_child_outcome(v, legal@[j], memo0) != Some(KpkOutcome::Win));
        }
    }
    result
}

/// `m` of `legal` is a candidate replacement for `chosen`: another move,
/// applicable, not repeating a position a third time.
pub open spec fn replacement_candidate(v: GameStateView, m: u64, chosen: u64) -> bool {
    m != chosen && applicable(v, m) && !threefold_after(v, m)
}

/// Scanning `s` from index `i` for a replacement of `chosen`, with the
/// best so far and its material score: the first candidate that mates at
/// once wins; otherwise the first candidate with the highest material
/// score.
pub open spec fn replacement_scan(v: GameStateView, s: Seq<u64>, chosen: u64, i: int, best: Option<u64>, best_score: int) -> Option<u64>
    decreases s.len() - i,
{
    if i < 0 || i >= s.len() {
        best
    } else if !replacement_candidate(v, s[i], chosen) {
        replacement_scan(v, s, chosen, i + 1, best, best_score)
    } else if is_checkmate(applied(v, s[i])) {
        Some(s[i])
    } else if material_balance(applied(v, s[i]), v.side_to_move) > best_score {
        replacement_scan(v, s, chosen, i + 1, Some(s[i]), material_balance(applied(v, s[i]), v.side_to_move))
    } else {
        replacement_scan(v, s, chosen, i + 1, best, best_score)
    }
}

/// A replacement for `chosen` among `legal_moves` that does not repeat a
/// position a third time: the first that mates at once, otherwise the
/// first one leaving the mover the most material. `None` when no move
/// qualifies.
pub fn select_non_repetition_best_material_move(game_state: &GameState, legal_moves: &[u64], chosen: u64) -> (r: Option<
    u64,
>)
    requires
        forall|i: int| 0 <= i < legal_moves@.len() ==> !make_overflows(game_state@, #[trigger] legal_moves@[i]),
    ensures
        r == replacement_scan(game_state@, legal_moves@, chosen, 0, None, i32::MIN as int),
        r matches Some(m) ==> legal_moves@.contains(m) && replacement_candidate(game_state@, m, chosen),
        r is None ==> forall|i: int|
            0 <= i < legal_moves@.len() ==> !replacement_candidate(game_state@, #[trigger] legal_moves@[i], chosen),
{
    let mut best_alt: Option<u64> = None;
    let mut best_score: i32 = i32::MIN;
    let mut i: usize = 0;
    while i < legal_moves.len()
        invariant
            i <= legal_moves.len(),
            forall|k: int| 0 <= k < legal_moves@.len() ==> !make_overflows(game_state@, #[trigger] legal_moves@[k]),
            best_alt matches Some(m) ==> legal_moves@.contains(m) && replacement_candidate(game_state@, m, chosen),
            best_alt is None ==> forall|k: int|
                0 <= k < i ==> !replacement_candidate(game_state@, #[trigger] legal_moves@[k], chosen),
            best_alt is None ==> best_score == i32::MIN,
            replacement_scan(game_state@, legal_moves@, chosen, 0, None, i32::MIN as int) == replacement_scan(
                game_state@,
                legal_moves@,
                chosen,
                i as int,
                best_alt,
                best_score as int,
            ),
        decreases legal_moves.len() - i,
    {
        let mv = legal_moves[i];
        if mv == chosen || would_be_threefold_after_move(game_state, mv) {
            i = i + 1;
            continue;
        }
        let next = match apply_move(game_state, mv) {
            Ok(n) => n,
            Err(_) => {
                i = i + 1;
                continue;
            },
        };
        proof {
            assert(legal_moves@.contains(legal_moves@[i as int]));
        }
        if is_mate_for_side_to_move(&next) {
            return Some(mv);
        }
        let score = material_score_for_color(&next, game_state.side_to_move);
        if score > best_score {
            best_score = score;
            best_alt = Some(mv);
        }
        i = i + 1;
    }
    best_alt
}

/// Picking among the moves `l[i..]` of `v` with the shared memo `memo`,
/// the move kept so far `best` (a drawing one when `best_draw`), can give
/// `r`: each move's outcome for the mover is its exit outcome when it
/// leaves the ending, otherwise the inverted outcome of a fresh-line search
/// of the position reached (from ply 0, sharing the memo). The first
/// winning move is picked at once; otherwise the first drawing move, or,
/// with none, the first move.
pub open spec fn kpk_pick(
    v: GameStateView,
    l: Seq<u64>,
    i: int,
    memo: Map<u64, KpkOutcome>,
    best: Option<u64>,
    best_draw: bool,
    r: Option<u64>,
) -> bool
    decreases l.len() - i,
{
    if i < 0 || i >= l.len() {
        r == best
    } else {
        let m = l[i];
        let n = applied(v, m);
        exists|o: KpkOutcome, memo2: Map<u64, KpkOutcome>|
            #![trigger kpk_child_result(o, memo2)]
            {
                &&& kpk_child_result(o, memo2)
                &&& if kpk_side(n) is None {
                    o == kpk_exit_outcome(v, m) && memo2 == memo
                } else {
                    exists|child: KpkOutcome| #[trigger] kpk_search(n, memo, Set::empty(), 0, child, memo2) && o == inverted(child)
                }
                &&& if o == KpkOutcome::Win {
                    r == Some(m)
                } else if o == KpkOutcome::Draw && !best_draw {
                    kpk_pick(v, l, i + 1, memo2, Some(m), true, r)
                } else if best is None {
                    kpk_pick(v, l, i + 1, memo2, Some(m), best_draw, r)
                } else {
                    kpk_pick(v, l, i + 1, memo2, best, best_draw, r)
                }
            }
    }
}

/// The move the exact solver picks in a king-and-pawn-versus-king position:
/// the first winning move, else the first drawing one, else the first
/// legal one. `None` outside such an ending, when the moves cannot be
/// generated, or when there is no legal move.
pub fn select_kpk_best_move(game_state: &GameState) -> (r: Option<u64>)
    ensures
        r matches Some(m) ==> legal_move(game_state@, m),
        r is None <==> (kpk_side(game_state@) is None || !generation_ok(game_state@) || !has_legal_move(
            game_state@,
        )),
        kpk_side(game_state@) is Some && generation_ok(game_state@) ==> exists|l: Seq<u64>|
            #![trigger legal_listing(game_state@, l)]
            legal_listing(game_state@, l) && kpk_pick(game_state@, l, 0, Map::empty(), None, false, r),
{
    let pawn_color = match kpk_pawn_color(game_state) {
        Some(c) => c,
        None => {
            return None;
        },
    };
    let mut probe = game_state.clone();
    let legal = match generate_legal_move_descriptions_in_place(&mut probe) {
        Ok(v) => v,
        Err(_) => {
            return None;
        },
    };
    proof {
        assert forall|k: int| 0 <= k < legal@.len() implies legal_move(game_state@, #[trigger] legal@[k]) by {
            assert(legal@.contains(legal@[k]));
        }
        if legal.len() == 0 {
            assert forall|m: u64| !legal_move(game_state@, m) by {
                if legal_move(game_state@, m) {
                    assert(legal@.contains(m));
                }
            }
        } else {
            assert(legal@.contains(legal@[0]));
        }
        assert(legal_listing(game_state@, legal@));
    }
    let mut memo: HashMap<u64, KpkOutcome> = HashMap::new();
    proof {
        assert(memo@ =~= Map::<u64, KpkOutcome>::empty());
    }
    let mut best: Option<u64> = None;
    let mut best_draw = false;
    let mut i: usize = 0;
    while i < legal.len()
        invariant
            i <= legal.len(),
            forall|k: int| 0 <= k < legal@.len() ==> legal_move(game_state@, #[trigger] legal@[k]),
            best matches Some(m) ==> legal_move(game_state@, m),
            i > 0 ==> best is Some,
            kpk_side(game_state@) is Some,
            generation_ok(game_state@),
            pawn_color == kpk_side(game_state@).unwrap(),
            legal_listing(game_state@, legal@),
                        forall|rr: Option<u64>|
                #[trigger] kpk_pick(game_state@, legal@, i as int, memo@, best, best_draw, rr)
                    ==> kpk_pick(game_state@, legal@, 0, Map::empty(), None, false, rr),
        decreases legal.len() - i,
    {
        let mv = legal[i];
        proof {
            crate::legal_move_generator::lemma_pseudo_move_facts(game_state@, mv);
        }
        let next = match apply_move(game_state, mv) {
            Ok(n) => n,
            Err(_) => {
                assert(false);
                i = i + 1;
                continue;
            },
        };
        let ghost memo_before = memo@;
        let ghost best_before = best;
        let ghost draw_before = best_draw;
        let outcome = if kpk_pawn_color(&next).is_none() {
            if has_promoted_material(&next, pawn_color) {
                if game_state.side_to_move == pawn_color {
                    KpkOutcome::Win
                } else {
                    KpkOutcome::Loss
                }
            } else {
                KpkOutcome::Draw
            }
        } else {
            let mut visiting: HashSet<u64> = HashSet::new();
            proof {
                assert(visiting@ =~= Set::<u64>::empty());
            }
            let child = solve_kpk_outcome(&next, &mut memo, &mut visiting, 0);
            proof {
                assert(kpk_search(next@, memo_before, Set::empty(), 0, child, memo@));
            }
            invert_kpk(child)
        };
        proof {
            assert(kpk_child_result(outcome, memo@));
        }
        if outcome == KpkOutcome::Win {
            proof {
                assert(kpk_pick(game_state@, legal@, i as int, memo_before, best, draw_before, Some(mv)));
                assert(kpk_pick(game_state@, legal@, 0, Map::empty(), None, false, Some(mv)));
                assert(legal_listing(game_state@, legal@));
            }
            return Some(mv);
        }
        if outcome == KpkOutcome::Draw && !best_draw {
            best = Some(mv);
            best_draw = true;
        } else if best.is_none() {
            best = Some(mv);
        }
        proof {
            assert forall|rr: Option<u64>|
                #[trigger] kpk_pick(game_state@, legal@, i + 1, memo@, best, best_draw, rr)
                    implies kpk_pick(game_state@, legal@, 0, Map::empty(), None, false, rr) by {
                assert(kpk_pick(game_state@, legal@, i as int, memo_before, best_before, draw_before, rr));
            }
        }
        i = i + 1;
    }
    proof {
        assert(kpk_pick(game_state@, legal@, legal@.len() as int, memo@, best, best_draw, best));
    }
    best
}

/// The centipawn score a search-info line reports: the first word after
/// the first " score cp ", read as an `i32`.
pub open spec fn cp_of_line(line: Seq<char>) -> Option<i32> {
    match find_from(line, " score cp "@, 0) {
        None => None,
        Some(i) => match first_word_after(line, i + " score cp "@.len()) {
            None => None,
            Some(w) => i32_text(w),
        },
    }
}

/// The score of the last line of `lines` that reports one.
pub open spec fn last_cp_score(lines: Seq<Seq<char>>) -> Option<i32>
    decreases lines.len(),
{
    if lines.len() == 0 {
        None
    } else {
        match cp_of_line(lines.last()) {
            Some(cp) => Some(cp),
            None => last_cp_score(lines.drop_last()),
        }
    }
}

/// The centipawn score of one line.
fn line_cp_score(line: &String) -> (r: Option<i32>)
    ensures
        r == cp_of_line(line@),
{
    let chars = chars_of(line.as_str());
    let phrase = chars_of(" score cp ");
    match find_phrase(&chars, &phrase, 0) {
        None => None,
        Some(idx) => {
            proof {
                lemma_find_from_occurs(chars@, phrase@, 0);
                assert(occurs_at(chars@, phrase@, idx as int));
                assert(idx + phrase@.len() <= chars@.len());
            }
            match word_after(&chars, idx + phrase.len()) {
                None => None,
                Some((start, end)) => parse_i32_chars(&chars, start, end),
            }
        },
    }
}

/// The score reported by the last search-info line that reports one.
pub fn extract_last_cp_score(info_lines: &[String]) -> (r: Option<i32>)
    ensures
        r == last_cp_score(info_lines@.map_values(|l: String| l@)),
{
    let ghost views = info_lines@.map_values(|l: String| l@);
    let mut i: usize = info_lines.len();
    assert(views.take(i as int) =~= views);
    while i > 0
        invariant
            i <= info_lines@.len(),
            views == info_lines@.map_values(|l: String| l@),
            last_cp_score(views) == last_cp_score(views.take(i as int)),
        decreases i,
    {
        i = i - 1;
        assert(views.take(i + 1).drop_last() =~= views.take(i as int));
        assert(views.take(i + 1).last() == info_lines@[i as int]@);
        if let Some(cp) = line_cp_score(&info_lines[i]) {
            return Some(cp);
        }
    }
    None
}


/// A move makes a threefold repetition exactly when the position it
/// reaches has already occurred at least twice in the game: once before
/// is only a twofold repetition.
pub proof fn lemma_threefold_counts_earlier_occurrences(v: GameStateView, mv: u64)
    ensures
        threefold_after(v, mv) <==> applicable(v, mv) && occurrences(
            v.repetition_history,
            applied(v, mv).zobrist_key,
        ) >= 2,
        applicable(v, mv) && occurrences(v.repetition_history, applied(v, mv).zobrist_key) == 1
            ==> !threefold_after(v, mv),
{
    reveal(crate::legal_move_apply::made);
    crate::legal_move_apply::lemma_make_frame(v, mv);
    let k = applied(v, mv).zobrist_key;
    let h = v.repetition_history;
    assert(applied(v, mv).repetition_history == h.push(k));
    assert(h.push(k).drop_last() =~= h);
}

} // verus!
