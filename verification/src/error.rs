//! The failures that the renderer reports instead of aborting.

use vstd::prelude::*;

verus! {

/// Why a renderer operation could not be carried out.
#[derive(Clone, Copy, Debug, PartialEq, Eq, Structural)]
pub enum RenderError {
    /// A fixed-capacity pool or table has no free slot left.
    PoolExhausted,
    /// An index or handle that names no live entry.
    InvalidHandle,
    /// The presentation surface gave no frame to draw into.
    SurfaceLost,
}

} // verus!
