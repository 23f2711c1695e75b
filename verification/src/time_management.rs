//! Time management: turning the clocks of a search request into a per-move
//! time budget.

use vstd::prelude::*;
use crate::chess_types::Color;
use crate::engine_trait::{GoParams, GoParamsView};
use crate::game_state::GameState;

verus! {

/// How to derive a move time from the clocks.
#[derive(Debug, Clone, Copy, PartialEq, Eq, Structural)]
pub enum TimeManagementStrategy {
    /// Spend a twentieth of the remaining clock.
    Fraction20,
    /// Adapt to clock, increment and game phase.
    AdaptiveV13,
}

/// `a + b`, capped at the largest `u64`.
pub open spec fn sat_add(a: int, b: int) -> int {
    if a + b > u64::MAX {
        u64::MAX as int
    } else {
        a + b
    }
}

/// The adaptive budget (in ms) for `remaining` ms on the clock.
pub open spec fn adaptive_budget(ply: u16, remaining: u64, inc: Option<u64>, movestogo: Option<u16>) -> int {
    let expected: int = match movestogo {
        Some(m) => if m >= 1 {
            m as int
        } else {
            1
        },
        None => if ply < 20 {
            40
        } else if ply < 60 {
            28
        } else {
            18
        },
    };
    let r25 = remaining / 25;
    let reserve: int = if r25 < 100 {
        100
    } else if r25 > remaining - 1 {
        remaining - 1
    } else {
        r25 as int
    };
    let usable: int = if remaining >= reserve {
        remaining - reserve
    } else {
        0
    };
    let base = usable / expected;
    let i = match inc {
        Some(x) => x as int,
        None => 0,
    };
    let inc_bonus = (if i * 3 > u64::MAX { u64::MAX as int } else { i * 3 }) / 4;
    let urgency: int = if remaining < 2000 {
        (remaining / 12) as int
    } else {
        0
    };
    let target = sat_add(sat_add(base, inc_bonus), urgency);
    let min_budget: int = if remaining < 1000 {
        5
    } else {
        15
    };
    let max_budget: int = if remaining / 4 > 1 {
        (remaining / 4) as int
    } else {
        1
    };
    let clamped = if target < min_budget {
        min_budget
    } else if target > max_budget {
        max_budget
    } else {
        target
    };
    if clamped > 1 {
        clamped
    } else {
        1
    }
}

/// The clock and increment of the side to move.
pub open spec fn own_clock(p: GoParamsView, side: Color) -> (Option<u64>, Option<u64>) {
    match side {
        Color::Light => (p.wtime_ms, p.winc_ms),
        Color::Dark => (p.btime_ms, p.binc_ms),
    }
}

/// The move time a strategy derives from `remaining` ms on the clock.
pub open spec fn budget_for(
    strategy: TimeManagementStrategy,
    ply: u16,
    remaining: u64,
    inc: Option<u64>,
    movestogo: Option<u16>,
) -> int {
    match strategy {
        TimeManagementStrategy::Fraction20 => if remaining / 20 > 1 {
            (remaining / 20) as int
        } else {
            1
        },
        TimeManagementStrategy::AdaptiveV13 => adaptive_budget(ply, remaining, inc, movestogo),
    }
}

/// The adaptive budget for `remaining_ms` on the clock.
fn adaptive_budget_ms(game_state: &GameState, remaining_ms: u64, inc_ms: Option<u64>, movestogo: Option<u16>) -> (r: u64)
    requires
        remaining_ms > 100,
    ensures
        r == adaptive_budget(game_state.ply, remaining_ms, inc_ms, movestogo),
{
    let ply = game_state.ply as u64;
    let expected_moves_left: u64 = match movestogo {
        Some(mtg) => if mtg >= 1 {
            mtg as u64
        } else {
            1
        },
        None => if ply < 20 {
            40
        } else if ply < 60 {
            28
        } else {
            18
        },
    };
    let r25 = remaining_ms / 25;
    let hi = remaining_ms.saturating_sub(1);
    let reserve = if r25 < 100 {
        100
    } else if r25 > hi {
        hi
    } else {
        r25
    };
    let usable = remaining_ms.saturating_sub(reserve);
    let base = usable / expected_moves_left;
    let inc = match inc_ms {
        Some(x) => x,
        None => 0,
    };
    let tripled = match inc.checked_mul(3) {
        Some(v) => v,
        None => u64::MAX,
    };
    let inc_bonus = tripled / 4;
    let urgency = if remaining_ms < 2_000 {
        remaining_ms / 12
    } else {
        0
    };
    let target = base.saturating_add(inc_bonus).saturating_add(urgency);
    let min_budget: u64 = if remaining_ms < 1_000 {
        5
    } else {
        15
    };
    let max_budget = if remaining_ms / 4 > 1 {
        remaining_ms / 4
    } else {
        1
    };
    let clamped = if target < min_budget {
        min_budget
    } else if target > max_budget {
        max_budget
    } else {
        target
    };
    if clamped > 1 {
        clamped
    } else {
        1
    }
}

/// The move time a request ends with: its own move time, else the
/// strategy's budget for the clock of the side to move, if it has one.
pub open spec fn resolved_movetime(p: GoParamsView, side: Color, ply: u16, strategy: TimeManagementStrategy) -> Option<u64> {
    if p.movetime_ms is Some {
        p.movetime_ms
    } else {
        match own_clock(p, side).0 {
            Some(rem) => Some(budget_for(strategy, ply, rem, own_clock(p, side).1, p.movestogo) as u64),
            None => None,
        }
    }
}

/// The search parameters with the move time decided: an explicit move time
/// is kept; otherwise, when the side to move has a clock, the strategy's
/// budget for it becomes the move time.
pub fn resolve_go_params(game_state: &GameState, params: &GoParams, strategy: TimeManagementStrategy) -> (r: GoParams)
    requires
        strategy == TimeManagementStrategy::AdaptiveV13 && params.movetime_ms is None ==> (own_clock(
            params@,
            game_state.side_to_move,
        ).0 matches Some(rem) ==> rem > 100),
    ensures
        r.movetime_ms == resolved_movetime(params@, game_state.side_to_move, game_state.ply, strategy),
        r.depth == params.depth,
        strategy == TimeManagementStrategy::Fraction20 && params.movetime_ms is None && game_state.side_to_move
            == Color::Dark ==> r.movetime_ms == match params.btime_ms {
            Some(b) => Some(if b / 20 > 1 { b / 20 } else { 1u64 }),
            None => None,
        },
        strategy == TimeManagementStrategy::Fraction20 && params.movetime_ms is None && game_state.side_to_move
            == Color::Light ==> r.movetime_ms == match params.wtime_ms {
            Some(w) => Some(if w / 20 > 1 { w / 20 } else { 1u64 }),
            None => None,
        },
        params.movetime_ms is Some ==> r@ == params@,
        params.movetime_ms is None ==> r@ == (GoParamsView {
            movetime_ms: match own_clock(params@, game_state.side_to_move).0 {
                Some(rem) => Some(
                    budget_for(
                        strategy,
                        game_state.ply,
                        rem,
                        own_clock(params@, game_state.side_to_move).1,
                        params.movestogo,
                    ) as u64,
                ),
                None => None,
            },
            ..params@
        }),
{
    proof {
        if params.movetime_ms is None {
            lemma_fraction20_uses_own_time(params@, game_state.ply);
        }
    }
    if params.movetime_ms.is_some() {
        return params.clone();
    }
    let mut resolved = params.clone();
    let (remaining_opt, inc_opt) = match game_state.side_to_move {
        Color::Light => (params.wtime_ms, params.winc_ms),
        Color::Dark => (params.btime_ms, params.binc_ms),
    };
    if let Some(remaining) = remaining_opt {
        let budget = match strategy {
            TimeManagementStrategy::Fraction20 => if remaining / 20 > 1 {
                remaining / 20
            } else {
                1
            },
            TimeManagementStrategy::AdaptiveV13 => adaptive_budget_ms(
                game_state,
                remaining,
                inc_opt,
                params.movestogo,
            ),
        };
        resolved.movetime_ms = Some(budget);
    }
    resolved
}


/// The move time is resolved from the clock of the side to move: two
/// requests that agree on the move time, the moves to go and that side's
/// clock and increment resolve alike, whatever the other side's clock.
pub proof fn lemma_budget_reads_own_clock(p: GoParamsView, q: GoParamsView, side: Color, ply: u16, strategy: TimeManagementStrategy)
    requires
        p.movetime_ms == q.movetime_ms,
        p.movestogo == q.movestogo,
        side == Color::Light ==> p.wtime_ms == q.wtime_ms && p.winc_ms == q.winc_ms,
        side == Color::Dark ==> p.btime_ms == q.btime_ms && p.binc_ms == q.binc_ms,
    ensures
        resolved_movetime(p, side, ply, strategy) == resolved_movetime(q, side, ply, strategy),
{
}

/// With no move time given, a twentieth of the mover's own remaining time
/// (at least 1 ms) is spent: `btime / 20` when Dark moves, `wtime / 20`
/// when Light moves.
pub proof fn lemma_fraction20_uses_own_time(p: GoParamsView, ply: u16)
    requires
        p.movetime_ms is None,
    ensures
        p.btime_ms matches Some(b) ==> resolved_movetime(p, Color::Dark, ply, TimeManagementStrategy::Fraction20)
            == Some(if b / 20 > 1 { b / 20 } else { 1u64 }),
        p.wtime_ms matches Some(w) ==> resolved_movetime(p, Color::Light, ply, TimeManagementStrategy::Fraction20)
            == Some(if w / 20 > 1 { w / 20 } else { 1u64 }),
        p.btime_ms is None ==> resolved_movetime(p, Color::Dark, ply, TimeManagementStrategy::Fraction20) is None,
        p.wtime_ms is None ==> resolved_movetime(p, Color::Light, ply, TimeManagementStrategy::Fraction20) is None,
{
}

} // verus!
