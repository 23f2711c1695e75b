//! How a side stands in check.

use vstd::prelude::*;
use crate::piece_record::PieceRecord;

verus! {

/// The kinds of check, each with the checked king and the checking
/// piece(s).
#[derive(Clone, Copy, Debug)]
pub enum TypesOfCheck {
    /// One checking piece, the one that just moved: (king, checker).
    SingleCheck(PieceRecord, PieceRecord),
    /// One checking piece uncovered by the piece that moved: (king, checker).
    DiscoveryCheck(PieceRecord, PieceRecord),
    /// Two checking pieces: (king, checker, checker).
    DoubleCheck(PieceRecord, PieceRecord, PieceRecord),
    /// No reply escapes the check: (king, checker).
    Checkmate(PieceRecord, PieceRecord),
    /// A check found without classifying it: (checker, king).
    UnclassifiedCheck(PieceRecord, PieceRecord),
}

} // verus!
