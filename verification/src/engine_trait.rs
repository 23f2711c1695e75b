//! The engine interface: search parameters of a `go` request, the engine's
//! answer, and the operations every engine offers.

use vstd::prelude::*;
use crate::game_state::GameState;

verus! {

/// Parameters of a search request.
#[derive(Debug)]
pub struct GoParams {
    pub depth: Option<u8>,
    pub movetime_ms: Option<u64>,
    pub wtime_ms: Option<u64>,
    pub btime_ms: Option<u64>,
    pub winc_ms: Option<u64>,
    pub binc_ms: Option<u64>,
    pub movestogo: Option<u16>,
    pub searchmoves: Option<Vec<u64>>,
    pub nodes: Option<u64>,
    pub mate: Option<u8>,
    pub ponder: bool,
    pub infinite: bool,
}

/// The view of search parameters: the fields, the move list as a sequence.
pub struct GoParamsView {
    pub depth: Option<u8>,
    pub movetime_ms: Option<u64>,
    pub wtime_ms: Option<u64>,
    pub btime_ms: Option<u64>,
    pub winc_ms: Option<u64>,
    pub binc_ms: Option<u64>,
    pub movestogo: Option<u16>,
    pub searchmoves: Option<Seq<u64>>,
    pub nodes: Option<u64>,
    pub mate: Option<u8>,
    pub ponder: bool,
    pub infinite: bool,
}

impl View for GoParams {
    type V = GoParamsView;

    open spec fn view(&self) -> GoParamsView {
        GoParamsView {
            depth: self.depth,
            movetime_ms: self.movetime_ms,
            wtime_ms: self.wtime_ms,
            btime_ms: self.btime_ms,
            winc_ms: self.winc_ms,
            binc_ms: self.binc_ms,
            movestogo: self.movestogo,
            searchmoves: match self.searchmoves {
                Some(v) => Some(v@),
                None => None,
            },
            nodes: self.nodes,
            mate: self.mate,
            ponder: self.ponder,
            infinite: self.infinite,
        }
    }
}

impl Clone for GoParams {
    fn clone(&self) -> (r: Self)
        ensures
            r@ == self@,
    {
        let searchmoves = match &self.searchmoves {
            Some(v) => Some(v.clone()),
            None => None,
        };
        GoParams {
            depth: self.depth,
            movetime_ms: self.movetime_ms,
            wtime_ms: self.wtime_ms,
            btime_ms: self.btime_ms,
            winc_ms: self.winc_ms,
            binc_ms: self.binc_ms,
            movestogo: self.movestogo,
            searchmoves,
            nodes: self.nodes,
            mate: self.mate,
            ponder: self.ponder,
            infinite: self.infinite,
        }
    }
}

impl Default for GoParams {
    fn default() -> (r: Self)
        ensures
            r.depth is None && r.movetime_ms is None && r.wtime_ms is None && r.btime_ms is None
                && r.winc_ms is None && r.binc_ms is None && r.movestogo is None && r.searchmoves is None
                && r.nodes is None && r.mate is None && !r.ponder && !r.infinite,
    {
        GoParams {
            depth: None,
            movetime_ms: None,
            wtime_ms: None,
            btime_ms: None,
            winc_ms: None,
            binc_ms: None,
            movestogo: None,
            searchmoves: None,
            nodes: None,
            mate: None,
            ponder: false,
            infinite: false,
        }
    }
}

/// An engine's answer: the chosen move (if any), the move it expects in
/// reply, and informational lines.
#[derive(Debug)]
pub struct EngineOutput {
    pub best_move: Option<u64>,
    pub ponder_move: Option<u64>,
    pub info_lines: Vec<String>,
}

impl Default for EngineOutput {
    fn default() -> (r: Self)
        ensures
            r.best_move is None,
            r.ponder_move is None,
            r.info_lines@.len() == 0,
    {
        EngineOutput { best_move: None, ponder_move: None, info_lines: Vec::new() }
    }
}

/// A chess engine.
pub trait Engine {
    /// The engine's name.
    fn name(&self) -> &str;

    /// The engine's author.
    fn author(&self) -> &str;

    /// Forget what was learnt in the previous game.
    fn new_game(&mut self) {
    }

    /// Set a named option; engines ignore options they do not know.
    fn set_option(&mut self, name: &str, value: &str) -> (r: Result<(), String>)
        default_ensures
            r == Ok::<(), String>(()),
    {
        Ok(())
    }

    /// Choose a move for the side to move.
    fn choose_move(&mut self, game_state: &GameState, params: &GoParams) -> Result<EngineOutput, String>;
}

} // verus!
