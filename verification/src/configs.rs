//! Configuration records for the two models: where each model lives, the
//! tensor names it binds to, and the resolutions and thresholds the pipeline
//! runs it with. All externally supplied; nothing here is hardcoded into the
//! core logic.

use vstd::prelude::*;
use crate::decode::MAX_INPUT_SIZE;

verus! {

/// Reference detector resolution.
pub const DEFAULT_DETECTOR_INPUT_SIZE: u32 = 640;

/// Reference confidence threshold: one half, fixed-point.
pub const DEFAULT_CONFIDENCE_THRESHOLD: i64 = 512;

/// Reference IoU threshold: one half, fixed-point.
pub const DEFAULT_IOU_THRESHOLD: i64 = 512;

/// Reference embedder resolution.
pub const DEFAULT_EMBEDDER_INPUT_SIZE: u32 = 160;

/// Reference embedding length.
pub const DEFAULT_EMBEDDING_LEN: usize = 128;

/// What the face detector is constructed with: the model file, its named
/// tensor bindings, its input resolution, and the two decoding thresholds
/// (fixed-point, like every confidence in this crate).
pub struct FaceDetectorConfig {
    pub model_path: String,
    pub input_name: String,
    pub output_name: String,
    pub input_size: u32,
    pub confidence_threshold: i64,
    pub iou_threshold: i64,
}

impl FaceDetectorConfig {
    pub open spec fn wf(self) -> bool {
        1 <= self.input_size <= MAX_INPUT_SIZE
    }

    pub fn new(
        model_path: String,
        input_name: String,
        output_name: String,
        input_size: u32,
        confidence_threshold: i64,
        iou_threshold: i64,
    ) -> (c: FaceDetectorConfig)
        requires
            1 <= input_size <= MAX_INPUT_SIZE,
        ensures
            c.wf(),
            c.model_path == model_path,
            c.input_name == input_name,
            c.output_name == output_name,
            c.input_size == input_size,
            c.confidence_threshold == confidence_threshold,
            c.iou_threshold == iou_threshold,
    {
        FaceDetectorConfig {
            model_path,
            input_name,
            output_name,
            input_size,
            confidence_threshold,
            iou_threshold,
        }
    }
}

/// What the embedding extractor is constructed with: the model file, its
/// named tensor bindings, its input resolution and the length of the vector
/// it produces.
pub struct FacenetConfig {
    pub model_path: String,
    pub input_name: String,
    pub output_name: String,
    pub input_size: u32,
    pub embedding_len: usize,
}

impl FacenetConfig {
    pub open spec fn wf(self) -> bool {
        1 <= self.input_size <= MAX_INPUT_SIZE
    }

    pub fn new(
        model_path: String,
        input_name: String,
        output_name: String,
        input_size: u32,
        embedding_len: usize,
    ) -> (c: FacenetConfig)
        requires
            1 <= input_size <= MAX_INPUT_SIZE,
        ensures
            c.wf(),
            c.model_path == model_path,
            c.input_name == input_name,
            c.output_name == output_name,
            c.input_size == input_size,
            c.embedding_len == embedding_len,
    {
        FacenetConfig { model_path, input_name, output_name, input_size, embedding_len }
    }
}

} // verus!
