//! Exact aspect-ratio letterboxing.
//!
//! Given the size of a drawable surface in whole pixels and a target aspect
//! ratio, [`compute_fit`] gives the largest centred region of that ratio: the
//! scale that brings a surface-filling quad down to it, and its corner and
//! extent in pixels. All results are rational numbers in lowest terms, so
//! nothing is rounded; [`model`] states the same computation over the real
//! numbers and proves what holds of every fit.

pub mod divisibility;
pub mod fit;
pub mod fraction;
pub mod model;
pub mod surface;

pub use fit::{
    compute_fit, FitError, FitResult, Offset, RegionSize, ScaleTransform, TargetRatio,
};
pub use fraction::Fraction;
pub use surface::{initial_size, DEFAULT_HEIGHT, DEFAULT_WIDTH};
