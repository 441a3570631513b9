//! The animation resampling engine of a glTF-to-Ren'Py scene converter:
//! it merges the independently timed, independently interpolated keyframe
//! channels of a scene node (translation, rotation, scale, morph weights)
//! into one coherent timeline of fully composed frames, with verified
//! contracts for the merge order, the carry-forward of unset properties,
//! step semantics, and the axis-convention remap. Scalars are carried as
//! their IEEE 754 single-precision encodings; the approximate arithmetic
//! itself (blending, trigonometry) is delegated to the embedding layer
//! through the [`animation::Interpolator`] trait. Keyframe times are
//! compared in unsigned encoding order, which coincides with numeric
//! order exactly for the non-negative, non-NaN times the asset model
//! supplies.

pub mod animation;
pub mod animations;
pub mod gltf_objects;
pub mod renpy_interop;
pub mod utils;

use vstd::prelude::*;

verus! {

/// Outcome reported to the embedding layer for a whole load or cache
/// operation.
#[derive(Clone, Copy, Debug, PartialEq, Eq, Structural)]
pub enum ResultCode {
    /// The operation succeeded.
    Success,
    /// A path argument was absent.
    NullPath,
    /// A path argument could not be read as text or did not exist.
    InvalidPath,
    /// The asset file could not be processed.
    BadFileProcessing,
    /// The cache database could not be opened.
    DatabaseOpenFailure,
    /// The cache database could not be created.
    DatabaseCreationFailure,
    /// A record could not be inserted into the cache database.
    DatabaseInsertionFailure,
    /// A record could not be read back from the cache database.
    DatabaseExtractionFailure,
    /// A cache database transaction could not be completed.
    DatabaseTransactionFailure,
}

} // verus!
