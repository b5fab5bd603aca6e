//! Face detection and alignment core: the logic that turns raw detector
//! output tensors into face boxes (decoding, confidence filtering, greedy
//! non-maximum suppression), the box algebra underlying it, and the
//! preparation of a detected face crop for an embedding model.
//!
//! Coordinates, confidences and thresholds are fixed-point numbers: a stored
//! `i64` value `v` stands for the real number `v / FRAC_SCALE`. Pixel values
//! inside a [`tensor::Tensor`] are bytes; a byte `b` stands for `b / 255`.
//! The neural-network inference engines themselves, image file I/O and the
//! command-line surface are collaborators outside this library.

pub mod configs;
pub mod decode;
pub mod errors;
pub mod geometry;
pub mod imageio;
pub mod pipeline;
pub mod suppress;
pub mod tensor;

pub use geometry::FaceBox;
pub use geometry::FRAC_SCALE;
