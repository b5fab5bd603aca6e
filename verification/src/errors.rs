//! Typed failure conditions. Engine and image-loading failures carry the
//! collaborator's message; pipeline conditions are plain values the verified
//! code decides on.

use vstd::prelude::*;

verus! {

/// Failure of an inference-engine call: fatal to the calling operation and
/// propagated, never retried.
#[derive(Debug, Clone)]
pub enum ModelError {
    OrtSessionBuildError(String),
    OrtSessionLoadError(String),
    OrtInputError(String),
    OrtInferenceError(String),
    OrtExtractSensorError(String),
}

/// Failure to load an image from a path.
#[derive(Debug, Clone)]
pub enum ImageError {
    OpenImageError(String),
}

/// Recoverable pipeline conditions the core itself decides.
#[derive(Clone, Copy, PartialEq, Eq, Structural, Debug)]
pub enum PipelineError {
    /// The detector returned no face to pick from.
    NoFaceDetected,
    /// The face box yields a zero-area crop (fully outside the image, or
    /// inverted corners), so no tensor can be made from it.
    DegenerateBoundingBox,
}

} // verus!
