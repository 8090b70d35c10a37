//! The error taxonomy of the fallible mutators.
//!
//! Readers never raise errors: out-of-range queries return sentinels instead.
//! Only the two edit mutators (a Brain cell write and a world cell write) can
//! fail, and they report why through this type.

use vstd::prelude::*;

verus! {

/// Why an edit was rejected. On rejection the target grid is left unchanged.
#[derive(Clone, Copy, Debug, PartialEq, Eq, Structural)]
pub enum EditError {
    /// The mutator received coordinates outside the grid.
    OutOfBounds,
    /// The edit would place an instruction type whose configured budget is
    /// already fully consumed elsewhere on the grid.
    BudgetExceeded,
}

} // verus!
