//! Conventional material count of a position.

use vstd::prelude::*;
use crate::bits::{count_bits, popcount};
use crate::chess_types::{Color, PieceKind};
use crate::game_state::{GameState, GameStateView};

verus! {

/// The material of side `c`: the value of each of its pieces, summed.
pub open spec fn side_material(v: GameStateView, c: Color) -> int {
    let n = |ki: int| popcount(v.pieces[c.idx() as int][ki], 64) as int;
    n(0) * 1 + n(1) * 3 + n(2) * 3 + n(3) * 5 + n(4) * 9
}

/// The material of side `c`, counted from its boards.
fn material_of(game_state: &GameState, c: Color) -> (r: u32)
    ensures
        r == side_material(game_state@, c),
{
    let i = c.index();
    count_bits(game_state.pieces[i][0]) + 3 * count_bits(game_state.pieces[i][1]) + 3 * count_bits(
        game_state.pieces[i][2],
    ) + 5 * count_bits(game_state.pieces[i][3]) + 9 * count_bits(game_state.pieces[i][4])
}

/// The material score of `v` fits the `i8` it is reported in.
pub open spec fn material_score_fits(v: GameStateView) -> bool {
    &&& side_material(v, Color::Light) <= 127
    &&& side_material(v, Color::Light) - side_material(v, Color::Dark) >= -128
}

impl GameState {
    /// Whether the material score fits the `i8` it is reported in.
    pub fn material_score_in_range(&self) -> (r: bool)
        ensures
            r == material_score_fits(self@),
    {
        let light = material_of(self, Color::Light);
        let dark = material_of(self, Color::Dark);
        light <= 127 && light as i64 - dark as i64 >= -128
    }

    /// Light's material minus Dark's (positive favours Light).
    pub fn get_material_score(&self) -> (r: i8)
        requires
            side_material(self@, Color::Light) <= 127,
            side_material(self@, Color::Light) - side_material(self@, Color::Dark) >= -128,
        ensures
            r == side_material(self@, Color::Light) - side_material(self@, Color::Dark),
    {
        let light = material_of(self, Color::Light);
        let dark = material_of(self, Color::Dark);
        (light as i32 - dark as i32) as i8
    }
}

} // verus!
