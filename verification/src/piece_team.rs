//! The side a piece belongs to, as used by the square-vector move generators.

use vstd::prelude::*;

verus! {

/// Which team a piece belongs to.
#[derive(Debug, Clone, Copy, PartialEq, Eq, Structural)]
pub enum PieceTeam {
    Light,
    Dark,
}

} // verus!
