//! The conditions under which an operation of the simulation fails.

use vstd::prelude::*;

verus! {

#[derive(Clone, Copy, Debug, PartialEq, Eq, Structural)]
pub enum SimError {
    /// The entity, or the handle, is already part of a tracked pair.
    DuplicateTracking,
    /// A shot was asked for while no player exists.
    NoPlayer,
    /// A position would leave the grid.
    OutOfRange,
}

} // verus!
