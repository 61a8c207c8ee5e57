//! The ways in which building a car or one of its parts can fail.
use vstd::prelude::*;

verus! {

/// A failure of this crate.
#[derive(Clone, Copy, Debug, PartialEq, Eq, Structural)]
pub enum CarError {
    /// The car's measurements do not fit together: the wheelbase exceeds the
    /// rated turning radius.
    ConfigurationError,
    /// A rectangle was asked for with a width or a height that is not positive.
    InvalidDimension,
    /// A matrix with determinant zero was to be inverted.
    DegenerateMatrix,
    /// The logo's picture could not be read or drawn.
    AssetLoadError,
}

} // verus!
