//! A move together with the check it gives.

use vstd::prelude::*;
use crate::move_description::MoveDescription;
use crate::types_of_check::TypesOfCheck;

verus! {

/// A move description and the check, if any, that it gives.
#[derive(Clone, Copy, Debug)]
pub struct CheckedMoveDescription {
    pub description: MoveDescription,
    pub check_status: Option<TypesOfCheck>,
}

} // verus!
