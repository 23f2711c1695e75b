//! Configuration of the iterative-deepening engine, version 16, and its
//! search for an immediate checkmate.

use vstd::prelude::*;
use crate::game_state::{GameState, GameStateView};
use crate::legal_move_apply::{applied, apply_move, make_overflows};
use crate::long_algebraic::{la_text, move_description_to_long_algebraic};
use crate::text::{append_decimal, decimal_chars};
use crate::legal_move_checks::king_in_check;
use crate::legal_move_generator::{applicable, generation_ok, has_legal_move, FastLegalMoveGenerator};
use crate::time_management::{TimeManagementStrategy, own_clock, resolve_go_params, resolved_movetime};
use crate::engine_trait::{GoParams, GoParamsView};
use crate::engine_iterative_v10::{preferred_promotion, prefer_queen_promotion};
use crate::engine_iterative_v17::is_mate_for_side_to_move;
use crate::engine_options::{named, truthy, value_is, usize_text, invalid_value_text, eq_ignore_ascii_case, is_truthy, trimmed_value_is, parse_usize_value, invalid_value};
use crate::text::trimmed_bytes;

verus! {

/// Which material table the engine scores with.
#[derive(Debug, Clone, Copy, PartialEq, Eq, Structural)]
pub enum IterativeScorerKind {
    Standard,
    AlphaZero,
}

/// How the search uses threads.
#[derive(Debug, Clone, Copy, PartialEq, Eq, Structural)]
pub enum ThreadingModel {
    SingleThreaded,
    LazySmp,
}

/// `v` is checkmate: the side to move is in check and has no legal move
/// (and its moves can be generated).
pub open spec fn is_checkmate(v: GameStateView) -> bool {
    generation_ok(v) && !has_legal_move(v) && king_in_check(v, v.side_to_move)
}

/// `m` mates at once from `v`.
pub open spec fn mates_at_once(v: GameStateView, m: u64) -> bool {
    applicable(v, m) && is_checkmate(applied(v, m))
}

/// The first move of `s` that mates at once from `v`.
pub open spec fn first_mate(v: GameStateView, s: Seq<u64>) -> Option<u64>
    decreases s.len(),
{
    if s.len() == 0 {
        None
    } else if mates_at_once(v, s[0]) {
        Some(s[0])
    } else {
        first_mate(v, s.drop_first())
    }
}

/// The iterative-deepening engine, version 16.
pub struct IterativeEngine {
    default_depth: u8,
    move_generator: FastLegalMoveGenerator,
    scorer_kind: IterativeScorerKind,
    use_own_book: bool,
    hash_mb: usize,
    multipv: usize,
    show_refutations: bool,
    requested_threads: usize,
    threading_model: ThreadingModel,
    time_strategy: TimeManagementStrategy,
}

impl IterativeEngine {
    /// The search depth used when a request names none.
    pub closed spec fn default_depth_of(self) -> u8 {
        self.default_depth
    }

    /// The material table the engine scores with.
    pub closed spec fn scorer_kind_of(self) -> IterativeScorerKind {
        self.scorer_kind
    }

    /// The engine's settings other than depth and scorer: own book, hash
    /// size, number of principal variations, refutation lines, threads,
    /// threading model, time strategy.
    pub closed spec fn settings_of(self) -> (bool, usize, usize, bool, usize, ThreadingModel, TimeManagementStrategy) {
        (
            self.use_own_book,
            self.hash_mb,
            self.multipv,
            self.show_refutations,
            self.requested_threads,
            self.threading_model,
            self.time_strategy,
        )
    }

    /// The settings of a fresh engine.
    pub open spec fn initial_settings() -> (bool, usize, usize, bool, usize, ThreadingModel, TimeManagementStrategy) {
        (true, 64, 1, false, 1, ThreadingModel::SingleThreaded, TimeManagementStrategy::AdaptiveV13)
    }

    pub fn new(default_depth: u8) -> (r: Self)
        ensures
            r.default_depth_of() == default_depth,
            r.scorer_kind_of() == IterativeScorerKind::Standard,
            r.settings_of() == Self::initial_settings(),
    {
        Self::new_with_scorer(default_depth, IterativeScorerKind::Standard)
    }

    pub fn new_standard(default_depth: u8) -> (r: Self)
        ensures
            r.default_depth_of() == default_depth,
            r.scorer_kind_of() == IterativeScorerKind::Standard,
            r.settings_of() == Self::initial_settings(),
    {
        Self::new_with_scorer(default_depth, IterativeScorerKind::Standard)
    }

    pub fn new_alpha_zero(default_depth: u8) -> (r: Self)
        ensures
            r.default_depth_of() == default_depth,
            r.scorer_kind_of() == IterativeScorerKind::AlphaZero,
            r.settings_of() == Self::initial_settings(),
    {
        Self::new_with_scorer(default_depth, IterativeScorerKind::AlphaZero)
    }

    pub fn new_with_scorer(default_depth: u8, scorer_kind: IterativeScorerKind) -> (r: Self)
        ensures
            r.default_depth_of() == default_depth,
            r.scorer_kind_of() == scorer_kind,
            r.settings_of() == Self::initial_settings(),
    {
        let hash_mb = 64usize;
        IterativeEngine {
            default_depth,
            move_generator: FastLegalMoveGenerator,
            scorer_kind,
            use_own_book: true,
            hash_mb,
            multipv: 1,
            show_refutations: false,
            requested_threads: 1,
            threading_model: ThreadingModel::SingleThreaded,
            time_strategy: TimeManagementStrategy::AdaptiveV13,
        }
    }
}

/// The settings after a UCI option (names compared ignoring ASCII case,
/// values trimmed): `OwnBook` and `UCI_ShowRefutations` take yes/no words;
/// `Hash` (kept at least 1), `MultiPV` (kept within 1..=32) and `Threads`
/// (kept at least 1) unsigned numbers; `TimeStrategy` is `adaptive`/`v13`
/// or `fraction20`/`legacy`/`simple`; `ThreadingModel` is
/// `single`/`singlethreaded` or `lazy`/`lazysmp`/`lazy_smp`. A value an
/// option does not accept gives a message naming it; other names change
/// nothing.
pub open spec fn option_applied(
    s: (bool, usize, usize, bool, usize, ThreadingModel, TimeManagementStrategy),
    name: &str,
    value: &str,
) -> Result<(bool, usize, usize, bool, usize, ThreadingModel, TimeManagementStrategy), Seq<char>> {
    let t = trimmed_bytes(value);
    if named(name, "OwnBook") {
        Ok((truthy(value), s.1, s.2, s.3, s.4, s.5, s.6))
    } else if named(name, "Hash") {
        match usize_text(t) {
            Some(n) => Ok((s.0, if n < 1 { 1 } else { n }, s.2, s.3, s.4, s.5, s.6)),
            None => Err(invalid_value_text("Hash"@, value@)),
        }
    } else if named(name, "TimeStrategy") {
        if value_is(value, "adaptive") || value_is(value, "v13") {
            Ok((s.0, s.1, s.2, s.3, s.4, s.5, TimeManagementStrategy::AdaptiveV13))
        } else if value_is(value, "fraction20") || value_is(value, "legacy") || value_is(value, "simple") {
            Ok((s.0, s.1, s.2, s.3, s.4, s.5, TimeManagementStrategy::Fraction20))
        } else {
            Err(invalid_value_text("TimeStrategy"@, value@))
        }
    } else if named(name, "MultiPV") {
        match usize_text(t) {
            Some(n) => Ok((s.0, s.1, if n < 1 { 1 } else if n > 32 { 32 } else { n }, s.3, s.4, s.5, s.6)),
            None => Err(invalid_value_text("MultiPV"@, value@)),
        }
    } else if named(name, "Threads") {
        match usize_text(t) {
            Some(n) => Ok((s.0, s.1, s.2, s.3, if n < 1 { 1 } else { n }, s.5, s.6)),
            None => Err(invalid_value_text("Threads"@, value@)),
        }
    } else if named(name, "ThreadingModel") {
        if value_is(value, "single") || value_is(value, "singlethreaded") {
            Ok((s.0, s.1, s.2, s.3, s.4, ThreadingModel::SingleThreaded, s.6))
        } else if value_is(value, "lazy") || value_is(value, "lazysmp") || value_is(value, "lazy_smp") {
            Ok((s.0, s.1, s.2, s.3, s.4, ThreadingModel::LazySmp, s.6))
        } else {
            Err(invalid_value_text("ThreadingModel"@, value@))
        }
    } else if named(name, "UCI_ShowRefutations") {
        Ok((s.0, s.1, s.2, truthy(value), s.4, s.5, s.6))
    } else {
        Ok(s)
    }
}

impl IterativeEngine {
    /// Apply a UCI option; see `option_applied`. A refused value leaves
    /// the settings unchanged.
    pub fn set_option(&mut self, name: &str, value: &str) -> (r: Result<(), String>)
        ensures
            final(self).default_depth_of() == old(self).default_depth_of(),
            final(self).scorer_kind_of() == old(self).scorer_kind_of(),
            match option_applied(old(self).settings_of(), name, value) {
                Ok(s2) => r is Ok && final(self).settings_of() == s2,
                Err(msg) => (r matches Err(e) && e@ == msg) && final(self).settings_of() == old(self).settings_of(),
            },
    {
        if eq_ignore_ascii_case(name, "OwnBook") {
            self.use_own_book = is_truthy(value);
            return Ok(());
        }
        if eq_ignore_ascii_case(name, "Hash") {
            let parsed = match parse_usize_value(value) {
                Some(n) => n,
                None => {
                    return Err(invalid_value("Hash", value));
                },
            };
            self.hash_mb = if parsed < 1 { 1 } else { parsed };
            return Ok(());
        }
        if eq_ignore_ascii_case(name, "TimeStrategy") {
            self.time_strategy = if trimmed_value_is(value, "adaptive") || trimmed_value_is(value, "v13") {
                TimeManagementStrategy::AdaptiveV13
            } else if trimmed_value_is(value, "fraction20") || trimmed_value_is(value, "legacy")
                || trimmed_value_is(value, "simple") {
                TimeManagementStrategy::Fraction20
            } else {
                return Err(invalid_value("TimeStrategy", value));
            };
            return Ok(());
        }
        if eq_ignore_ascii_case(name, "MultiPV") {
            let parsed = match parse_usize_value(value) {
                Some(n) => n,
                None => {
                    return Err(invalid_value("MultiPV", value));
                },
            };
            self.multipv = if parsed < 1 { 1 } else if parsed > 32 { 32 } else { parsed };
            return Ok(());
        }
        if eq_ignore_ascii_case(name, "Threads") {
            let parsed = match parse_usize_value(value) {
                Some(n) => n,
                None => {
                    return Err(invalid_value("Threads", value));
                },
            };
            self.requested_threads = if parsed < 1 { 1 } else { parsed };
            return Ok(());
        }
        if eq_ignore_ascii_case(name, "ThreadingModel") {
            self.threading_model = if trimmed_value_is(value, "single") || trimmed_value_is(value, "singlethreaded") {
                ThreadingModel::SingleThreaded
            } else if trimmed_value_is(value, "lazy") || trimmed_value_is(value, "lazysmp")
                || trimmed_value_is(value, "lazy_smp") {
                ThreadingModel::LazySmp
            } else {
                return Err(invalid_value("ThreadingModel", value));
            };
            return Ok(());
        }
        if eq_ignore_ascii_case(name, "UCI_ShowRefutations") {
            self.show_refutations = is_truthy(value);
            return Ok(());
        }
        Ok(())
    }
}

/// The first of `legal_moves` that checkmates at once.
pub fn find_mate_in_one(game_state: &GameState, legal_moves: &[u64]) -> (r: Option<u64>)
    requires
        forall|i: int| 0 <= i < legal_moves@.len() ==> !make_overflows(game_state@, #[trigger] legal_moves@[i]),
    ensures
        r == first_mate(game_state@, legal_moves@),
{
    let mut i: usize = 0;
    proof {
        assert(legal_moves@.skip(0) =~= legal_moves@);
    }
    while i < legal_moves.len()
        invariant
            i <= legal_moves.len(),
            forall|k: int| 0 <= k < legal_moves@.len() ==> !make_overflows(game_state@, #[trigger] legal_moves@[k]),
            first_mate(game_state@, legal_moves@) == first_mate(game_state@, legal_moves@.skip(i as int)),
        decreases legal_moves.len() - i,
    {
        let mv = legal_moves[i];
        proof {
            assert(legal_moves@.skip(i as int).drop_first() =~= legal_moves@.skip(i + 1));
            assert(legal_moves@.skip(i as int)[0] == mv);
        }
        match apply_move(game_state, mv) {
            Ok(next) => {
                if is_mate_for_side_to_move(&next) {
                    return Some(mv);
                }
            },
            Err(_) => {},
        }
        i = i + 1;
    }
    proof {
        assert(legal_moves@.skip(i as int) =~= Seq::<u64>::empty());
    }
    None
}

/// What bounds a search request: an explicit move time first, then a
/// node count, then a mate distance, otherwise the clocks or a depth.
#[derive(Debug, Clone, Copy, PartialEq, Eq, Structural)]
pub enum GoControlMode {
    MoveTime,
    Nodes,
    Mate,
    ClocksOrDepth,
}

/// The control mode of a request.
pub open spec fn control_mode_of(p: GoParamsView) -> GoControlMode {
    if p.movetime_ms is Some {
        GoControlMode::MoveTime
    } else if p.nodes is Some {
        GoControlMode::Nodes
    } else if p.mate is Some {
        GoControlMode::Mate
    } else {
        GoControlMode::ClocksOrDepth
    }
}

/// The plies a mate in `m` moves needs: `2m + 1`, saturating at 255.
pub open spec fn mate_plies(m: u8) -> u8 {
    let doubled: int = if 2 * m > 255 {
        255
    } else {
        2 * m
    };
    (if doubled + 1 > 255 {
        255
    } else {
        doubled + 1
    }) as u8
}

/// How a request is searched.
#[derive(Debug, Clone, Copy)]
pub struct SearchPlan {
    pub control_mode: GoControlMode,
    /// The mate distance searched for, in mate mode.
    pub mate_mode: Option<u8>,
    /// The node budget, in node mode.
    pub node_cap: Option<u64>,
    /// The move time, dropped in mate and node modes.
    pub movetime_ms: Option<u64>,
    /// The depth searched: the requested depth (else the engine's), at
    /// least the plies a requested mate needs, at least 1.
    pub depth: u8,
}

/// The plan for request `p` whose resolved move time is `movetime`.
pub open spec fn search_plan(p: GoParamsView, movetime: Option<u64>, default_depth: u8) -> SearchPlan {
    let mode = control_mode_of(p);
    let mate_mode = if mode == GoControlMode::Mate {
        p.mate
    } else {
        None
    };
    let base = match p.depth {
        Some(d) => d,
        None => default_depth,
    };
    let target = match mate_mode {
        Some(m) => mate_plies(m),
        None => 1u8,
    };
    let deeper = if base >= target {
        base
    } else {
        target
    };
    SearchPlan {
        control_mode: mode,
        mate_mode,
        node_cap: if mode == GoControlMode::Nodes {
            p.nodes
        } else {
            None
        },
        movetime_ms: if (mode == GoControlMode::Mate || mode == GoControlMode::Nodes) && p.movetime_ms is None {
            None
        } else {
            movetime
        },
        depth: if deeper >= 1 {
            deeper
        } else {
            1
        },
    }
}

/// The control mode of a request.
pub fn go_control_mode(params: &GoParams) -> (r: GoControlMode)
    ensures
        r == control_mode_of(params@),
{
    if params.movetime_ms.is_some() {
        GoControlMode::MoveTime
    } else if params.nodes.is_some() {
        GoControlMode::Nodes
    } else if params.mate.is_some() {
        GoControlMode::Mate
    } else {
        GoControlMode::ClocksOrDepth
    }
}

impl IterativeEngine {
    /// The search a request asks this engine for: its control mode, mate
    /// distance, node budget, move time (resolved by the engine's time
    /// strategy) and depth.
    pub fn plan_search(&self, game_state: &GameState, params: &GoParams) -> (r: SearchPlan)
        requires
            self.settings_of().6 == TimeManagementStrategy::AdaptiveV13 && params.movetime_ms is None ==> (own_clock(
                params@,
                game_state.side_to_move,
            ).0 matches Some(rem) ==> rem > 100),
        ensures
            r == search_plan(
                params@,
                resolved_movetime(params@, game_state.side_to_move, game_state.ply, self.settings_of().6),
                self.default_depth_of(),
            ),
    {
        let control_mode = go_control_mode(params);
        let mate_mode = if control_mode == GoControlMode::Mate {
            params.mate
        } else {
            None
        };
        let node_cap = if control_mode == GoControlMode::Nodes {
            params.nodes
        } else {
            None
        };
        let effective_params = resolve_go_params(game_state, params, self.time_strategy);
        let mut movetime_ms = effective_params.movetime_ms;
        if (control_mode == GoControlMode::Mate || control_mode == GoControlMode::Nodes) && params.movetime_ms.is_none() {
            movetime_ms = None;
        }
        let mate_depth_target: u8 = match mate_mode {
            Some(m) => {
                let doubled: u8 = if m > 127 {
                    255
                } else {
                    2 * m
                };
                if doubled == 255 {
                    255
                } else {
                    doubled + 1
                }
            },
            None => 1,
        };
        let base: u8 = match effective_params.depth {
            Some(d) => d,
            None => self.default_depth,
        };
        let deeper = if base >= mate_depth_target {
            base
        } else {
            mate_depth_target
        };
        let depth = if deeper >= 1 {
            deeper
        } else {
            1
        };
        SearchPlan { control_mode, mate_mode, node_cap, movetime_ms, depth }
    }
}

/// The moves of `s` that `allowed` contains, in order.
pub open spec fn kept_moves(s: Seq<u64>, allowed: Seq<u64>) -> Seq<u64>
    decreases s.len(),
{
    if s.len() == 0 {
        Seq::empty()
    } else if allowed.contains(s.last()) {
        kept_moves(s.drop_last(), allowed).push(s.last())
    } else {
        kept_moves(s.drop_last(), allowed)
    }
}

/// The root moves searched: the legal moves, restricted to the requested
/// ones when the request names some.
pub open spec fn root_moves(legal: Seq<u64>, allowed: Option<Seq<u64>>) -> Seq<u64> {
    match allowed {
        None => legal,
        Some(a) => kept_moves(legal, a),
    }
}

/// The move chosen among root moves `root` after a search that proposed
/// `search_best`: the proposal when it is a root move, else the first root
/// move; an immediate mate replaces it; a queen promotion is then
/// preferred. Also whether a mate was found and whether the promotion
/// preference changed the move.
pub open spec fn root_choice(v: GameStateView, root: Seq<u64>, search_best: Option<u64>) -> (Option<u64>, bool, bool) {
    if root.len() == 0 {
        (None, false, false)
    } else {
        let proposed = match search_best {
            Some(b) => if root.contains(b) {
                b
            } else {
                root[0]
            },
            None => root[0],
        };
        let chosen = match first_mate(v, root) {
            Some(m) => m,
            None => proposed,
        };
        let preferred = preferred_promotion(chosen, root);
        (Some(preferred), first_mate(v, root) is Some, preferred != chosen)
    }
}

/// The root moves and the move chosen among them.
pub struct RootChoice {
    pub root_legal: Vec<u64>,
    pub best_move: Option<u64>,
    /// An immediate mate was chosen.
    pub immediate_mate: bool,
    /// A queen promotion replaced the chosen move.
    pub queen_promotion_preferred: bool,
}

/// Whether `list` holds `m`.
fn holds_move(list: &Vec<u64>, m: u64) -> (r: bool)
    ensures
        r == list@.contains(m),
{
    let mut i: usize = 0;
    while i < list.len()
        invariant
            i <= list@.len(),
            forall|k: int| 0 <= k < i ==> list@[k] != m,
        decreases list@.len() - i,
    {
        if list[i] == m {
            assert(list@[i as int] == m);
            return true;
        }
        i = i + 1;
    }
    false
}

/// The root moves of a search (the legal moves, restricted to the
/// requested ones) and the move to play among them, given the move the
/// search proposed.
pub fn select_root_move(
    game_state: &GameState,
    legal: &Vec<u64>,
    searchmoves: &Option<Vec<u64>>,
    search_best: Option<u64>,
) -> (r: RootChoice)
    requires
        forall|i: int| 0 <= i < legal@.len() ==> !make_overflows(game_state@, #[trigger] legal@[i]),
    ensures
        r.root_legal@ == root_moves(
            legal@,
            match searchmoves {
                Some(a) => Some(a@),
                None => None,
            },
        ),
        (r.best_move, r.immediate_mate, r.queen_promotion_preferred) == root_choice(
            game_state@,
            r.root_legal@,
            search_best,
        ),
{
    let mut root_legal: Vec<u64> = Vec::new();
    let mut i: usize = 0;
    while i < legal.len()
        invariant
            i <= legal@.len(),
            forall|k: int| 0 <= k < legal@.len() ==> !make_overflows(game_state@, #[trigger] legal@[k]),
            forall|k: int| 0 <= k < root_legal@.len() ==> !make_overflows(game_state@, #[trigger] root_legal@[k]),
            root_legal@ == root_moves(
                legal@.take(i as int),
                match searchmoves {
                    Some(a) => Some(a@),
                    None => None,
                },
            ),
        decreases legal@.len() - i,
    {
        let m = legal[i];
        assert(legal@.take(i + 1).drop_last() =~= legal@.take(i as int));
        assert(legal@.take(i + 1).last() == m);
        let keep = match searchmoves {
            Some(allowed) => holds_move(allowed, m),
            None => true,
        };
        if keep {
            root_legal.push(m);
        }
        i = i + 1;
    }
    assert(legal@.take(legal@.len() as int) =~= legal@);
    if root_legal.len() == 0 {
        return RootChoice {
            root_legal,
            best_move: None,
            immediate_mate: false,
            queen_promotion_preferred: false,
        };
    }
    let proposed = match search_best {
        Some(b) => if holds_move(&root_legal, b) {
            b
        } else {
            root_legal[0]
        },
        None => root_legal[0],
    };
    let mate_one = find_mate_in_one(game_state, root_legal.as_slice());
    let immediate_mate = mate_one.is_some();
    let chosen = match mate_one {
        Some(m) => m,
        None => proposed,
    };
    let preferred = prefer_queen_promotion(chosen, root_legal.as_slice());
    RootChoice {
        root_legal,
        best_move: Some(preferred),
        immediate_mate,
        queen_promotion_preferred: preferred != chosen,
    }
}

/// A root move with its score and the line expected after it.
#[derive(Debug, Clone)]
pub struct RankedCandidate {
    pub mv: u64,
    pub cp: i32,
    pub continuation: Vec<u64>,
}

/// Each move of `replies` can be tried in turn without overflow, as long
/// as the line can be played.
pub open spec fn line_safe(v: GameStateView, replies: Seq<u64>) -> bool
    decreases replies.len(),
{
    replies.len() == 0 || (!make_overflows(v, replies[0]) && (applicable(v, replies[0]) ==> line_safe(
        applied(v, replies[0]),
        replies.drop_first(),
    )))
}

/// The texts of a line of replies from `v`: each reply is written, and the
/// line stops after the first reply that cannot be played.
pub open spec fn line_texts(v: GameStateView, replies: Seq<u64>) -> Seq<Seq<char>>
    decreases replies.len(),
{
    if replies.len() == 0 {
        Seq::empty()
    } else {
        seq![la_text(replies[0])] + if applicable(v, replies[0]) {
            line_texts(applied(v, replies[0]), replies.drop_first())
        } else {
            Seq::empty()
        }
    }
}

/// Words separated by single spaces.
pub open spec fn spaced(ws: Seq<Seq<char>>) -> Seq<char>
    decreases ws.len(),
{
    if ws.len() == 0 {
        Seq::empty()
    } else if ws.len() == 1 {
        ws[0]
    } else {
        spaced(ws.drop_last()) + seq![' '] + ws.last()
    }
}

/// The decimal text of a signed number.
pub open spec fn signed_text(x: int) -> Seq<char> {
    if x < 0 {
        seq!['-'] + decimal_chars((-x) as nat)
    } else {
        decimal_chars(x as nat)
    }
}

/// A candidate's expected line from `v`: the move alone when no line
/// follows it, else the move and its line when the move can be played;
/// nothing when it cannot.
pub open spec fn candidate_line(v: GameStateView, c: RankedCandidate) -> Option<Seq<Seq<char>>> {
    if c.continuation@.len() == 0 {
        Some(seq![la_text(c.mv)])
    } else if applicable(v, c.mv) {
        Some(seq![la_text(c.mv)] + line_texts(applied(v, c.mv), c.continuation@))
    } else {
        None
    }
}

/// A candidate's lines can be computed without overflow.
pub open spec fn candidate_safe(v: GameStateView, c: RankedCandidate) -> bool {
    c.continuation@.len() > 0 ==> !make_overflows(v, c.mv) && (applicable(v, c.mv) ==> line_safe(
        applied(v, c.mv),
        c.continuation@,
    ))
}

/// The info line of the candidate ranked `idx` (from 0).
pub open spec fn multipv_line(depth: u8, idx: int, cp: i32, line: Seq<Seq<char>>) -> Seq<char> {
    "info depth "@ + decimal_chars(depth as nat) + " multipv "@ + decimal_chars((idx + 1) as nat) + " score cp "@
        + signed_text(cp as int) + " pv "@ + spaced(line)
}

/// The info lines of the first `k` candidates, skipping those whose move
/// cannot be played.
pub open spec fn multipv_lines(v: GameStateView, ranked: Seq<RankedCandidate>, depth: u8, k: int) -> Seq<Seq<char>>
    decreases k,
{
    if k <= 0 {
        Seq::empty()
    } else {
        let before = multipv_lines(v, ranked, depth, k - 1);
        match candidate_line(v, ranked[k - 1]) {
            Some(line) => before.push(multipv_line(depth, k - 1, ranked[k - 1].cp, line)),
            None => before,
        }
    }
}

/// The refutation lines: each of the second to fourth candidates refuted
/// by the first.
pub open spec fn refutation_lines(ranked: Seq<RankedCandidate>) -> Seq<Seq<char>> {
    if ranked.len() < 2 {
        Seq::empty()
    } else {
        let limit: int = if ranked.len() < 4 {
            ranked.len() as int
        } else {
            4
        };
        Seq::new(
            (limit - 1) as nat,
            |j: int| "info refutation "@ + la_text(ranked[j + 1].mv) + " "@ + la_text(ranked[0].mv),
        )
    }
}

/// The texts of a list of strings.
pub open spec fn texts_of(v: Seq<String>) -> Seq<Seq<char>> {
    v.map_values(|s: String| s@)
}

/// Append the decimal text of a signed number.
fn append_signed(s: &mut String, x: i32)
    ensures
        final(s)@ == old(s)@ + signed_text(x as int),
{
    proof {
        reveal_strlit("-");
    }
    if x < 0 {
        s.append("-");
        let magnitude: u64 = (-(x as i64)) as u64;
        append_decimal(s, magnitude);
    } else {
        append_decimal(s, x as u64);
    }
}

/// The expected line of a candidate, spaced, when its move can be played.
fn candidate_line_text(game_state: &GameState, c: &RankedCandidate) -> (r: Option<String>)
    requires
        candidate_safe(game_state@, *c),
    ensures
        match candidate_line(game_state@, *c) {
            Some(line) => r matches Some(t) && t@ == spaced(line),
            None => r is None,
        },
{
    proof {
        reveal_strlit(" ");
    }
    let first = move_description_to_long_algebraic(c.mv);
    if c.continuation.len() == 0 {
        return Some(first);
    }
    let mut state = match apply_move(game_state, c.mv) {
        Ok(s) => s,
        Err(_) => {
            return None;
        },
    };
    let ghost full = seq![la_text(c.mv)] + line_texts(state@, c.continuation@);
    let ghost mut texts: Seq<Seq<char>> = seq![la_text(c.mv)];
    let mut out = first;
    let mut j: usize = 0;
    let mut alive = true;
    assert(c.continuation@.skip(0) =~= c.continuation@);
    while j < c.continuation.len() && alive
        invariant
            j <= c.continuation@.len(),
            texts.len() >= 1,
            out@ == spaced(texts),
            alive ==> texts + line_texts(state@, c.continuation@.skip(j as int)) == full,
            alive ==> line_safe(state@, c.continuation@.skip(j as int)),
            !alive ==> texts == full,
        decreases c.continuation@.len() - j + if alive {
            1int
        } else {
            0int
        },
    {
        let reply = c.continuation[j];
        let ghost rest = c.continuation@.skip(j as int);
        assert(rest[0] == reply);
        assert(rest.drop_first() =~= c.continuation@.skip(j + 1));
        let text = move_description_to_long_algebraic(reply);
        let ghost before = texts;
        out.append(" ");
        out.append(text.as_str());
        proof {
            texts = texts.push(la_text(reply));
            assert(texts.drop_last() =~= before);
            assert(spaced(texts) == spaced(before) + seq![' '] + la_text(reply));
            reveal_strlit(" ");
            assert(" "@ =~= seq![' ']);
        }
        match apply_move(&state, reply) {
            Ok(next) => {
                proof {
                    assert(before + line_texts(state@, rest) =~= texts + line_texts(next@, rest.drop_first()));
                }
                state = next;
                j = j + 1;
            },
            Err(_) => {
                proof {
                    assert(before + line_texts(state@, rest) =~= texts);
                }
                alive = false;
            },
        }
    }
    proof {
        if alive {
            assert(c.continuation@.skip(j as int) =~= Seq::<u64>::empty());
            assert(texts + Seq::<Seq<char>>::empty() =~= texts);
        }
    }
    Some(out)
}

impl IterativeEngine {
    /// The number of principal variations the engine reports.
    pub closed spec fn multipv_of(self) -> usize {
        self.multipv
    }

    /// The principal-variation info lines of the first (up to the
    /// engine's number of variations) ranked candidates: depth, rank,
    /// score and expected line, skipping candidates whose move cannot be
    /// played.
    pub fn build_multipv_lines(&self, game_state: &GameState, ranked: &[RankedCandidate], depth: u8) -> (r: Vec<String>)
        requires
            forall|i: int| 0 <= i < ranked@.len() ==> candidate_safe(game_state@, #[trigger] ranked@[i]),
        ensures
            texts_of(r@) == multipv_lines(
                game_state@,
                ranked@,
                depth,
                if ranked@.len() < self.multipv_of() {
                    ranked@.len() as int
                } else {
                    self.multipv_of() as int
                },
            ),
    {
        proof {
            reveal_strlit("info depth ");
            reveal_strlit(" multipv ");
            reveal_strlit(" score cp ");
            reveal_strlit(" pv ");
        }
        let n = if ranked.len() < self.multipv {
            ranked.len()
        } else {
            self.multipv
        };
        let mut lines: Vec<String> = Vec::new();
        let mut idx: usize = 0;
        while idx < n
            invariant
                idx <= n,
                n <= ranked@.len(),
                forall|i: int| 0 <= i < ranked@.len() ==> candidate_safe(game_state@, #[trigger] ranked@[i]),
                texts_of(lines@) == multipv_lines(game_state@, ranked@, depth, idx as int),
            decreases n - idx,
        {
            let candidate = &ranked[idx];
            assert(candidate_safe(game_state@, ranked@[idx as int]));
            match candidate_line_text(game_state, candidate) {
                Some(pv) => {
                    let mut line = String::from_str("info depth ");
                    append_decimal(&mut line, depth as u64);
                    line.append(" multipv ");
                    append_decimal(&mut line, (idx + 1) as u64);
                    line.append(" score cp ");
                    append_signed(&mut line, candidate.cp);
                    line.append(" pv ");
                    line.append(pv.as_str());
                    let ghost before = lines@;
                    lines.push(line);
                    assert(texts_of(lines@) =~= texts_of(before).push(line@));
                },
                None => {},
            }
            idx = idx + 1;
        }
        lines
    }

    /// Refutation info lines: each of the second to fourth ranked
    /// candidates refuted by the first.
    pub fn build_refutation_lines(&self, game_state: &GameState, ranked: &[RankedCandidate]) -> (r: Vec<String>)
        ensures
            texts_of(r@) == refutation_lines(ranked@),
    {
        proof {
            reveal_strlit("info refutation ");
            reveal_strlit(" ");
        }
        let mut lines: Vec<String> = Vec::new();
        if ranked.len() < 2 {
            assert(texts_of(lines@) =~= refutation_lines(ranked@));
            return lines;
        }
        let best = move_description_to_long_algebraic(ranked[0].mv);
        let limit = if ranked.len() < 4 {
            ranked.len()
        } else {
            4
        };
        let ghost want = refutation_lines(ranked@);
        let mut k: usize = 1;
        while k < limit
            invariant
                1 <= k <= limit,
                limit <= ranked@.len(),
                2 <= ranked@.len(),
                limit == (if ranked@.len() < 4 { ranked@.len() } else { 4 }),
                best@ == la_text(ranked@[0].mv),
                want == refutation_lines(ranked@),
                texts_of(lines@) =~= want.take(k - 1),
            decreases limit - k,
        {
            let mut line = String::from_str("info refutation ");
            let alt = move_description_to_long_algebraic(ranked[k].mv);
            line.append(alt.as_str());
            line.append(" ");
            line.append(best.as_str());
            let ghost before = lines@;
            lines.push(line);
            assert(texts_of(lines@) =~= texts_of(before).push(line@));
            assert(want.take(k as int) =~= want.take(k - 1).push(want[k - 1]));
            k = k + 1;
        }
        assert(want.take(limit - 1) =~= want);
        lines
    }
}


/// The name of a control mode, as the engine reports it.
pub open spec fn control_mode_name(m: GoControlMode) -> Seq<char> {
    match m {
        GoControlMode::MoveTime => "MoveTime"@,
        GoControlMode::Nodes => "Nodes"@,
        GoControlMode::Mate => "Mate"@,
        GoControlMode::ClocksOrDepth => "ClocksOrDepth"@,
    }
}

/// Where the move time of a control mode comes from.
pub open spec fn movetime_source_name(m: GoControlMode) -> Seq<char> {
    match m {
        GoControlMode::MoveTime => "explicit"@,
        GoControlMode::Mate => "mate_mode_unbounded"@,
        GoControlMode::Nodes => "node_mode_unbounded"@,
        GoControlMode::ClocksOrDepth => "strategy"@,
    }
}

/// An optional number written as `Some(n)` or `None`.
pub open spec fn option_text(o: Option<u64>) -> Seq<char> {
    match o {
        Some(n) => "Some("@ + decimal_chars(n as nat) + ")"@,
        None => "None"@,
    }
}

/// An optional mate distance as an optional number.
pub open spec fn widen_mate(o: Option<u8>) -> Option<u64> {
    match o {
        Some(m) => Some(m as u64),
        None => None,
    }
}

/// A flag written as `true` or `false`.
pub open spec fn flag_text(b: bool) -> Seq<char> {
    if b {
        "true"@
    } else {
        "false"@
    }
}

/// The report lines of the depth used, the control mode, the mate target
/// in plies and the move time.
pub open spec fn plan_info_head(plan: SearchPlan) -> Seq<Seq<char>> {
    let pre = "info string iterative_engine_v16 "@;
    let mate = match plan.mate_mode {
        Some(m) => seq![pre + "mate_mode plies_target "@ + decimal_chars(mate_plies(m) as nat)],
        None => Seq::<Seq<char>>::empty(),
    };
    let movetime = match plan.movetime_ms {
        Some(ms) => seq![pre + "movetime_ms "@ + decimal_chars(ms as nat)],
        None => Seq::<Seq<char>>::empty(),
    };
    seq![
        pre + "used_depth "@ + decimal_chars(plan.depth as nat),
        pre + "control_mode "@ + control_mode_name(plan.control_mode),
    ] + mate + movetime
}

/// The report line of the raw clock fields of request `p`.
pub open spec fn go_raw_text(p: GoParamsView) -> Seq<char> {
    "info string iterative_engine_v16 "@ + "go_raw movetime="@ + option_text(p.movetime_ms) + " wtime="@
        + option_text(p.wtime_ms) + " btime="@ + option_text(p.btime_ms) + " winc="@ + option_text(p.winc_ms)
        + " binc="@ + option_text(p.binc_ms)
}

/// The report line of the raw mode fields of request `p`.
pub open spec fn go_modes_text(p: GoParamsView) -> Seq<char> {
    "info string iterative_engine_v16 "@ + "go_modes nodes="@ + option_text(p.nodes) + " mate="@ + option_text(
        widen_mate(p.mate),
    ) + " ponder="@ + flag_text(p.ponder) + " infinite="@ + flag_text(p.infinite)
}

/// The report lines of the node budget and the notes on pondering and
/// infinite search.
pub open spec fn plan_info_notes(p: GoParamsView, plan: SearchPlan) -> Seq<Seq<char>> {
    let pre = "info string iterative_engine_v16 "@;
    let cap = match plan.node_cap {
        Some(n) => seq![pre + "node_cap "@ + decimal_chars(n as nat)],
        None => Seq::<Seq<char>>::empty(),
    };
    let ponder = if p.ponder {
        seq![pre + "note ponder mode parsed; search remains synchronous"@]
    } else {
        Seq::<Seq<char>>::empty()
    };
    let infinite = if p.infinite {
        seq![pre + "note infinite parsed; bounded iterative search is used in synchronous mode"@]
    } else {
        Seq::<Seq<char>>::empty()
    };
    cap + ponder + infinite
}

/// The report lines of the resolved move time, its source and which
/// control took precedence.
pub open spec fn plan_info_resolution(p: GoParamsView, plan: SearchPlan) -> Seq<Seq<char>> {
    let pre = "info string iterative_engine_v16 "@;
    let precedence = if plan.control_mode == GoControlMode::MoveTime && (p.nodes is Some || p.mate is Some) {
        seq![pre + "precedence movetime overrides nodes/mate"@]
    } else if plan.control_mode == GoControlMode::Nodes && p.mate is Some {
        seq![pre + "precedence nodes overrides mate"@]
    } else {
        Seq::<Seq<char>>::empty()
    };
    seq![
        pre + "go_resolved movetime="@ + option_text(plan.movetime_ms),
        pre + "movetime_source "@ + movetime_source_name(plan.control_mode),
    ] + precedence
}

/// The engine's report lines on how request `p` is searched under `plan`:
/// the depth used, the control mode, the mate target in plies, the move
/// time, the raw clock and mode fields of the request, the node budget,
/// notes on pondering and infinite search, the resolved move time and its
/// source, and which control took precedence.
pub open spec fn plan_info_text(p: GoParamsView, plan: SearchPlan) -> Seq<Seq<char>> {
    plan_info_head(plan) + seq![go_raw_text(p), go_modes_text(p)] + plan_info_notes(p, plan)
        + plan_info_resolution(p, plan)
}

/// Append an optional number as `Some(n)` or `None`.
fn append_option(s: &mut String, o: Option<u64>)
    ensures
        final(s)@ == old(s)@ + option_text(o),
{
    match o {
        Some(n) => {
            s.append("Some(");
            append_decimal(s, n);
            s.append(")");
        },
        None => {
            s.append("None");
        },
    }
}

/// Append a flag as `true` or `false`.
fn append_flag(s: &mut String, b: bool)
    ensures
        final(s)@ == old(s)@ + flag_text(b),
{
    if b {
        s.append("true");
    } else {
        s.append("false");
    }
}

/// A report line: the engine's prefix followed by `rest`.
fn report_line(rest: &str) -> (r: String)
    ensures
        r@ == "info string iterative_engine_v16 "@ + rest@,
{
    let mut s = String::from_str("info string iterative_engine_v16 ");
    s.append(rest);
    s
}

/// The views of a list of lines.
pub open spec fn line_views(v: Seq<String>) -> Seq<Seq<char>> {
    v.map_values(|s: String| s@)
}

/// Append line `s` to `out`.
fn push_line(out: &mut Vec<String>, s: String)
    ensures
        line_views(final(out)@) == line_views(old(out)@).push(s@),
{
    let ghost before = out@;
    out.push(s);
    proof {
        assert(line_views(out@) =~= line_views(before).push(s@));
    }
}

/// The lines of `plan_info_head`.
fn plan_head_lines(plan: &SearchPlan) -> (r: Vec<String>)
    ensures
        line_views(r@) == plan_info_head(*plan),
{
    let mut out: Vec<String> = Vec::new();
    let mut s = report_line("used_depth ");
    append_decimal(&mut s, plan.depth as u64);
    push_line(&mut out, s);
    let mut s = report_line("control_mode ");
    match plan.control_mode {
        GoControlMode::MoveTime => s.append("MoveTime"),
        GoControlMode::Nodes => s.append("Nodes"),
        GoControlMode::Mate => s.append("Mate"),
        GoControlMode::ClocksOrDepth => s.append("ClocksOrDepth"),
    }
    push_line(&mut out, s);
    match plan.mate_mode {
        Some(m) => {
            let doubled: u8 = if m > 127 {
                255
            } else {
                2 * m
            };
            let plies: u8 = if doubled == 255 {
                255
            } else {
                doubled + 1
            };
            let mut s = report_line("mate_mode plies_target ");
            append_decimal(&mut s, plies as u64);
            push_line(&mut out, s);
        },
        None => {},
    }
    match plan.movetime_ms {
        Some(ms) => {
            let mut s = report_line("movetime_ms ");
            append_decimal(&mut s, ms);
            push_line(&mut out, s);
        },
        None => {},
    }
    proof {
        assert(line_views(out@) =~= plan_info_head(*plan));
    }
    out
}

/// The line of `go_raw_text`.
fn go_raw_line(params: &GoParams) -> (r: String)
    ensures
        r@ == go_raw_text(params@),
{
    let mut s = report_line("go_raw movetime=");
    append_option(&mut s, params.movetime_ms);
    s.append(" wtime=");
    append_option(&mut s, params.wtime_ms);
    s.append(" btime=");
    append_option(&mut s, params.btime_ms);
    s.append(" winc=");
    append_option(&mut s, params.winc_ms);
    s.append(" binc=");
    append_option(&mut s, params.binc_ms);
    s
}

/// The line of `go_modes_text`.
fn go_modes_line(params: &GoParams) -> (r: String)
    ensures
        r@ == go_modes_text(params@),
{
    let mut s = report_line("go_modes nodes=");
    append_option(&mut s, params.nodes);
    s.append(" mate=");
    let mate_wide: Option<u64> = match params.mate {
        Some(m) => Some(m as u64),
        None => None,
    };
    append_option(&mut s, mate_wide);
    s.append(" ponder=");
    append_flag(&mut s, params.ponder);
    s.append(" infinite=");
    append_flag(&mut s, params.infinite);
    s
}

/// The lines of `plan_info_notes`.
fn plan_note_lines(params: &GoParams, plan: &SearchPlan) -> (r: Vec<String>)
    ensures
        line_views(r@) == plan_info_notes(params@, *plan),
{
    let mut out: Vec<String> = Vec::new();
    match plan.node_cap {
        Some(n) => {
            let mut s = report_line("node_cap ");
            append_decimal(&mut s, n);
            push_line(&mut out, s);
        },
        None => {},
    }
    if params.ponder {
        push_line(&mut out, report_line("note ponder mode parsed; search remains synchronous"));
    }
    if params.infinite {
        push_line(&mut out, report_line("note infinite parsed; bounded iterative search is used in synchronous mode"));
    }
    proof {
        assert(line_views(out@) =~= plan_info_notes(params@, *plan));
    }
    out
}

/// The lines of `plan_info_resolution`.
fn plan_resolution_lines(params: &GoParams, plan: &SearchPlan) -> (r: Vec<String>)
    ensures
        line_views(r@) == plan_info_resolution(params@, *plan),
{
    let mut out: Vec<String> = Vec::new();
    let mut s = report_line("go_resolved movetime=");
    append_option(&mut s, plan.movetime_ms);
    push_line(&mut out, s);
    let mut s = report_line("movetime_source ");
    match plan.control_mode {
        GoControlMode::MoveTime => s.append("explicit"),
        GoControlMode::Mate => s.append("mate_mode_unbounded"),
        GoControlMode::Nodes => s.append("node_mode_unbounded"),
        GoControlMode::ClocksOrDepth => s.append("strategy"),
    }
    push_line(&mut out, s);
    if plan.control_mode == GoControlMode::MoveTime && (params.nodes.is_some() || params.mate.is_some()) {
        push_line(&mut out, report_line("precedence movetime overrides nodes/mate"));
    } else if plan.control_mode == GoControlMode::Nodes && params.mate.is_some() {
        push_line(&mut out, report_line("precedence nodes overrides mate"));
    }
    proof {
        assert(line_views(out@) =~= plan_info_resolution(params@, *plan));
    }
    out
}

/// Append the lines `more` to `out`.
fn append_lines(out: &mut Vec<String>, more: Vec<String>)
    ensures
        line_views(final(out)@) == line_views(old(out)@) + line_views(more@),
{
    let ghost before = out@;
    let mut i: usize = 0;
    while i < more.len()
        invariant
            i <= more.len(),
            line_views(out@) == line_views(before) + line_views(more@.take(i as int)),
        decreases more.len() - i,
    {
        let ghost b = out@;
        out.push(more[i].clone());
        proof {
            assert(more@.take(i + 1) =~= more@.take(i as int).push(more@[i as int]));
            assert(line_views(out@) =~= line_views(b).push(more@[i as int]@));
            assert(line_views(more@.take(i + 1)) =~= line_views(more@.take(i as int)).push(more@[i as int]@));
        }
        i = i + 1;
    }
    proof {
        assert(more@.take(more.len() as int) =~= more@);
    }
}

/// The lines of `plan_info_text`: how request `params` is searched under
/// `plan`, as the engine reports it.
pub fn plan_info_lines(params: &GoParams, plan: &SearchPlan) -> (r: Vec<String>)
    ensures
        line_views(r@) == plan_info_text(params@, *plan),
{
    let mut out = plan_head_lines(plan);
    push_line(&mut out, go_raw_line(params));
    push_line(&mut out, go_modes_line(params));
    append_lines(&mut out, plan_note_lines(params, plan));
    append_lines(&mut out, plan_resolution_lines(params, plan));
    proof {
        assert(line_views(out@) =~= plan_info_text(params@, *plan));
    }
    out
}

} // verus!
