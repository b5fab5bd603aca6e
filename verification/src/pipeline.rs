//! Pipeline orchestration decisions: the whole post-inference stage of the
//! detector (reshape, decode, suppress), the choice of "the" face among the
//! detections, and the crop-and-preprocess stage in front of the embedding
//! model. Everything an inference engine or the file system must do stays
//! with the caller; these functions decide and compute.

use vstd::prelude::*;
use crate::decode::MAX_IMAGE_DIM;
use crate::decode::MAX_INPUT_SIZE;
use crate::decode::decode;
use crate::decode::decode_spec;
use crate::decode::transpose_output;
use crate::decode::transposed_spec;
use crate::errors::PipelineError;
use crate::geometry::COORD_MAX;
use crate::geometry::FRAC_SCALE;
use crate::geometry::FaceBox;
use crate::geometry::area;
use crate::geometry::area_spec;
use crate::geometry::iou_spec;
use crate::geometry::spec_max;
use crate::geometry::spec_min;
use crate::imageio::cropped;
use crate::imageio::crop_region;
use crate::imageio::rgb_resized;
use crate::suppress::nms_spec;
use crate::suppress::sort_desc;
use crate::suppress::sorted_desc;
use crate::suppress::suppress;
use crate::tensor::Tensor;
use crate::tensor::planar_of;
use crate::tensor::preprocess_onnx_input;

verus! {

/// The whole post-inference stage of detection: the flat attribute-major
/// engine output is reshaped candidate-major, decoded against the image
/// dimensions and confidence threshold, and the surviving boxes are
/// de-duplicated by greedy non-maximum suppression. The result is
/// confidence-descending with mutually low overlap.
pub fn detect_postprocess(
    data: &Vec<i64>,
    num_attrs: usize,
    num_candidates: usize,
    input_size: u32,
    img_w: u32,
    img_h: u32,
    confidence_threshold: i64,
    iou_threshold: i64,
) -> (out: Vec<FaceBox>)
    requires
        data@.len() == num_attrs * num_candidates,
        num_attrs * num_candidates <= usize::MAX,
        num_attrs >= 5,
        1 <= input_size <= MAX_INPUT_SIZE,
        img_w <= MAX_IMAGE_DIM,
        img_h <= MAX_IMAGE_DIM,
        forall|a: int, c: int|
            0 <= a < 4 && 0 <= c < num_candidates ==> 0 <= #[trigger] data@[a * num_candidates + c]
                <= input_size * FRAC_SCALE,
    ensures
        out@ == nms_spec(
            sort_desc(
                decode_spec(
                    transposed_spec(data@, num_attrs as int, num_candidates as int),
                    input_size,
                    img_w,
                    img_h,
                    confidence_threshold,
                ),
            ),
            iou_threshold,
        ),
        sorted_desc(out@),
        forall|i: int, j: int|
            0 <= i < j < out@.len() ==> iou_spec(#[trigger] out@[i], #[trigger] out@[j])
                < iou_threshold,
        forall|i: int| 0 <= i < out@.len() ==> (#[trigger] out@[i]).wf(),
{
    let rows = transpose_output(data, num_attrs, num_candidates);
    proof {
        assert forall|r: int| 0 <= r < rows@.len() implies crate::decode::row_wf(
            #[trigger] rows@[r]@,
            input_size,
        ) by {
            assert(rows.deep_view()[r] == rows@[r]@);
            assert forall|j: int| 0 <= j < 4 implies 0 <= #[trigger] rows@[r]@[j] <= input_size
                * FRAC_SCALE by {
                assert(rows@[r]@[j] == transposed_spec(
                    data@,
                    num_attrs as int,
                    num_candidates as int,
                )[r][j]);
                assert(rows@[r]@[j] == data@[j * num_candidates + r]);
            }
        }
    }
    let boxes = decode(&rows, input_size, img_w, img_h, confidence_threshold);
    suppress(&boxes, iou_threshold)
}

/// How the orchestrator picks "the" face among the detections.
#[derive(Clone, Copy, PartialEq, Eq, Structural, Debug)]
pub enum SelectionPolicy {
    /// The first detection as the detector ranked them.
    First,
    /// The most confident detection; the earliest on a tie.
    HighestConfidence,
    /// The detection covering the most area; the earliest on a tie.
    LargestArea,
}

/// The most confident box; the earliest on a tie.
pub open spec fn pick_highest(s: Seq<FaceBox>) -> FaceBox
    recommends
        s.len() >= 1,
    decreases s.len(),
{
    if s.len() <= 1 {
        s[0]
    } else {
        let prev = pick_highest(s.drop_last());
        if prev.confidence >= s.last().confidence {
            prev
        } else {
            s.last()
        }
    }
}

/// The largest box; the earliest on a tie.
pub open spec fn pick_largest(s: Seq<FaceBox>) -> FaceBox
    recommends
        s.len() >= 1,
    decreases s.len(),
{
    if s.len() <= 1 {
        s[0]
    } else {
        let prev = pick_largest(s.drop_last());
        if area_spec(prev) >= area_spec(s.last()) {
            prev
        } else {
            s.last()
        }
    }
}

/// The box a policy selects from a non-empty detection list.
pub open spec fn selected_spec(s: Seq<FaceBox>, policy: SelectionPolicy) -> FaceBox
    recommends
        s.len() >= 1,
{
    match policy {
        SelectionPolicy::First => s[0],
        SelectionPolicy::HighestConfidence => pick_highest(s),
        SelectionPolicy::LargestArea => pick_largest(s),
    }
}

/// Picks "the" face from the detector's output under the given policy;
/// an empty detection list is the recoverable `NoFaceDetected` condition,
/// never an out-of-range access.
pub fn select_face(boxes: &Vec<FaceBox>, policy: SelectionPolicy) -> (r: Result<
    FaceBox,
    PipelineError,
>)
    requires
        policy == SelectionPolicy::LargestArea ==> forall|i: int|
            0 <= i < boxes@.len() ==> (#[trigger] boxes@[i]).wf(),
    ensures
        r is Err <==> boxes@.len() == 0,
        r is Err ==> r == Err::<FaceBox, PipelineError>(PipelineError::NoFaceDetected),
        r is Ok ==> r == Ok::<FaceBox, PipelineError>(selected_spec(boxes@, policy)),
{
    if boxes.len() == 0 {
        return Err(PipelineError::NoFaceDetected);
    }
    match policy {
        SelectionPolicy::First => Ok(boxes[0]),
        SelectionPolicy::HighestConfidence => {
            let mut best = boxes[0];
            let mut i: usize = 1;
            proof {
                assert(boxes@.take(1) =~= seq![boxes@[0]]);
            }
            while i < boxes.len()
                invariant
                    1 <= i <= boxes@.len(),
                    best == pick_highest(boxes@.take(i as int)),
                decreases boxes@.len() - i,
            {
                proof {
                    assert(boxes@.take(i + 1).drop_last() =~= boxes@.take(i as int));
                    assert(boxes@.take(i + 1).last() == boxes@[i as int]);
                }
                let candidate = boxes[i];
                if candidate.confidence > best.confidence {
                    best = candidate;
                }
                i = i + 1;
            }
            proof {
                assert(boxes@.take(boxes@.len() as int) =~= boxes@);
            }
            Ok(best)
        },
        SelectionPolicy::LargestArea => {
            let mut best = boxes[0];
            let mut i: usize = 1;
            proof {
                assert(boxes@.take(1) =~= seq![boxes@[0]]);
            }
            while i < boxes.len()
                invariant
                    1 <= i <= boxes@.len(),
                    best == pick_largest(boxes@.take(i as int)),
                    best.wf(),
                    forall|k: int| 0 <= k < boxes@.len() ==> (#[trigger] boxes@[k]).wf(),
                decreases boxes@.len() - i,
            {
                proof {
                    assert(boxes@.take(i + 1).drop_last() =~= boxes@.take(i as int));
                    assert(boxes@.take(i + 1).last() == boxes@[i as int]);
                }
                let candidate = boxes[i];
                let best_area = area(&best);
                let candidate_area = area(&candidate);
                if candidate_area > best_area {
                    best = candidate;
                }
                i = i + 1;
            }
            proof {
                assert(boxes@.take(boxes@.len() as int) =~= boxes@);
            }
            Ok(best)
        },
    }
}

/// A fixed-point coordinate as a pixel index: truncated toward zero,
/// clamped below at zero (as a saturating float-to-unsigned cast behaves).
pub open spec fn px_of(v: i64) -> int {
    if v <= 0 {
        0
    } else {
        (v as int) / (FRAC_SCALE as int)
    }
}

/// The integer crop rectangle a face box describes, clipped to the image:
/// top-left corner clamped into the image, extent the saturating difference
/// of the corners' pixel positions, cut at the image border.
pub open spec fn crop_x_spec(face: FaceBox, img_w: u32) -> int {
    spec_min(px_of(face.x1), img_w as int)
}

pub open spec fn crop_y_spec(face: FaceBox, img_h: u32) -> int {
    spec_min(px_of(face.y1), img_h as int)
}

pub open spec fn crop_w_spec(face: FaceBox, img_w: u32) -> int {
    spec_min(spec_max(px_of(face.x2) - px_of(face.x1), 0), img_w - crop_x_spec(face, img_w))
}

pub open spec fn crop_h_spec(face: FaceBox, img_h: u32) -> int {
    spec_min(spec_max(px_of(face.y2) - px_of(face.y1), 0), img_h - crop_y_spec(face, img_h))
}

/// A non-degenerate crop: the clipped rectangle still has pixels on both
/// axes.
pub open spec fn crop_nonempty(face: FaceBox, img_w: u32, img_h: u32) -> bool {
    crop_w_spec(face, img_w) > 0 && crop_h_spec(face, img_h) > 0
}

/// An integer pixel rectangle, already clipped to its image.
#[derive(Clone, Copy, PartialEq, Eq, Structural, Debug)]
pub struct CropRect {
    pub x: u32,
    pub y: u32,
    pub width: u32,
    pub height: u32,
}

impl CropRect {
    pub open spec fn within(self, img_w: u32, img_h: u32) -> bool {
        &&& 1 <= self.width
        &&& 1 <= self.height
        &&& self.x + self.width <= img_w
        &&& self.y + self.height <= img_h
    }
}

/// The rectangle `crop_rect` hands out on success.
pub open spec fn crop_rect_spec(face: FaceBox, img_w: u32, img_h: u32) -> CropRect {
    CropRect {
        x: crop_x_spec(face, img_w) as u32,
        y: crop_y_spec(face, img_h) as u32,
        width: crop_w_spec(face, img_w) as u32,
        height: crop_h_spec(face, img_h) as u32,
    }
}

fn px(v: i64) -> (r: u32)
    requires
        -COORD_MAX <= v <= COORD_MAX,
    ensures
        r == px_of(v),
{
    if v <= 0 {
        0
    } else {
        ((v as u64) / (FRAC_SCALE as u64)) as u32
    }
}

/// The integer crop rectangle of a face box within an image, or the
/// `DegenerateBoundingBox` condition exactly when the clipped rectangle is
/// empty: a box fully outside the image, or with inverted corners, is
/// rejected here rather than processed into an undefined-shape tensor.
pub fn crop_rect(face: &FaceBox, img_w: u32, img_h: u32) -> (r: Result<CropRect, PipelineError>)
    requires
        face.bounded(),
    ensures
        r is Ok <==> crop_nonempty(*face, img_w, img_h),
        r is Ok ==> r == Ok::<CropRect, PipelineError>(crop_rect_spec(*face, img_w, img_h)),
        r is Err ==> r == Err::<CropRect, PipelineError>(PipelineError::DegenerateBoundingBox),
        r is Ok ==> crop_rect_spec(*face, img_w, img_h).within(img_w, img_h),
{
    let x1p = px(face.x1);
    let y1p = px(face.y1);
    let x2p = px(face.x2);
    let y2p = px(face.y2);
    let raw_w = if x2p >= x1p {
        x2p - x1p
    } else {
        0
    };
    let raw_h = if y2p >= y1p {
        y2p - y1p
    } else {
        0
    };
    let cx = if x1p <= img_w {
        x1p
    } else {
        img_w
    };
    let cy = if y1p <= img_h {
        y1p
    } else {
        img_h
    };
    let cw = if raw_w <= img_w - cx {
        raw_w
    } else {
        img_w - cx
    };
    let ch = if raw_h <= img_h - cy {
        raw_h
    } else {
        img_h - cy
    };
    if cw == 0 || ch == 0 {
        Err(PipelineError::DegenerateBoundingBox)
    } else {
        Ok(CropRect { x: cx, y: cy, width: cw, height: ch })
    }
}

/// The crop-and-preprocess stage in front of the embedding model: cuts the
/// face rectangle out of the image and preprocesses it to the embedder's
/// resolution. A face box whose clipped rectangle is empty is rejected as
/// `DegenerateBoundingBox` before any pixel work.
pub fn prepare_embedding_input(
    image: &image::DynamicImage,
    face: &FaceBox,
    img_w: u32,
    img_h: u32,
    target_size: (u32, u32),
) -> (r: Result<Tensor, PipelineError>)
    requires
        face.bounded(),
        1 <= target_size.0,
        1 <= target_size.1,
        3 * target_size.0 * target_size.1 <= usize::MAX,
    ensures
        r is Ok <==> crop_nonempty(*face, img_w, img_h),
        r is Err ==> r == Err::<Tensor, PipelineError>(PipelineError::DegenerateBoundingBox),
        r is Ok ==> ({
            let rect = crop_rect_spec(*face, img_w, img_h);
            let t = r->Ok_0;
            &&& t.wf()
            &&& t.width == target_size.0
            &&& t.height == target_size.1
            &&& t.data@ == planar_of(
                rgb_resized(
                    cropped(*image, rect.x, rect.y, rect.width, rect.height),
                    target_size.0,
                    target_size.1,
                ),
                target_size.0,
                target_size.1,
            )
        }),
{
    let rect = match crop_rect(face, img_w, img_h) {
        Ok(rect) => rect,
        Err(e) => {
            return Err(e);
        },
    };
    let face_image = crop_region(image, rect.x, rect.y, rect.width, rect.height);
    let tensor = preprocess_onnx_input(&face_image, target_size);
    Ok(tensor)
}

} // verus!
