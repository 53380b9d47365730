//! Geometric constraints on sketched entities.
//!
//! Reserved: the session records which axes of an entity are pinned, but no
//! pass consumes constraints yet.

use vstd::prelude::*;

verus! {

/// Axis pins of a sketched entity.
#[derive(Clone, Copy, Debug, PartialEq, Eq, Structural)]
pub struct Constraint {
    pub horizontal: bool,
    pub vertical: bool,
}

impl Default for Constraint {
    /// An unconstrained entity.
    fn default() -> (r: Constraint)
        ensures
            r == (Constraint { horizontal: false, vertical: false }),
    {
        Constraint { horizontal: false, vertical: false }
    }
}

} // verus!
