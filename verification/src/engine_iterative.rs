//! Configuration of the iterative-deepening material-search engine.

use vstd::prelude::*;
use crate::legal_move_generator::LegalMoveGenerator;

verus! {

/// The iterative-deepening engine: searches to its default depth unless a
/// request names one.
pub struct IterativeEngine {
    default_depth: u8,
    move_generator: LegalMoveGenerator,
}

impl IterativeEngine {
    /// The search depth used when a request names none.
    pub closed spec fn default_depth_of(self) -> u8 {
        self.default_depth
    }

    pub fn new(default_depth: u8) -> (r: Self)
        ensures
            r.default_depth_of() == default_depth,
    {
        IterativeEngine { default_depth, move_generator: LegalMoveGenerator }
    }
}

} // verus!
