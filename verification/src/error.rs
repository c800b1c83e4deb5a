//! The failures the simulation reports instead of panicking.

use vstd::prelude::*;

verus! {

/// Why a construction or a lookup was refused.
///
/// Degenerate geometry (zero-length springs or edges, coincident points)
/// is never an error: the stages absorb it with explicit guards, because
/// one bad frame must not stop a running simulation.
#[derive(Clone, Copy, Debug, PartialEq, Eq, Structural)]
pub enum SimError {
    /// A point-mass reference no longer resolves, or two references that
    /// must be distinct collide.
    StaleReference,
    /// A zero or negative mass, or a negative spring parameter.
    InvalidConfiguration,
    /// A polygon with fewer than three vertices.
    ShapeArity,
}

} // verus!
