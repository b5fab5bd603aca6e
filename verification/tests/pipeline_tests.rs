use facenet::configs::{FaceDetectorConfig, FacenetConfig};
use facenet::errors::{ImageError, ModelError, PipelineError};
use facenet::geometry::{FaceBox, FRAC_SCALE};
use facenet::pipeline::{
    crop_rect, detect_postprocess, prepare_embedding_input, select_face, CropRect, SelectionPolicy,
};

fn boxed(x1: i64, y1: i64, x2: i64, y2: i64, confidence: i64) -> FaceBox {
    FaceBox {
        x1: x1 * FRAC_SCALE,
        y1: y1 * FRAC_SCALE,
        x2: x2 * FRAC_SCALE,
        y2: y2 * FRAC_SCALE,
        confidence,
    }
}

fn rgb_image(width: u32, height: u32, raw: Vec<u8>) -> image::DynamicImage {
    image::DynamicImage::ImageRgb8(image::RgbImage::from_raw(width, height, raw).unwrap())
}

#[test]
fn select_face_on_empty_list_reports_no_face() {
    let boxes: Vec<FaceBox> = Vec::new();
    assert_eq!(
        select_face(&boxes, SelectionPolicy::First),
        Err(PipelineError::NoFaceDetected)
    );
}

#[test]
fn select_face_first_takes_index_zero() {
    let a = boxed(0, 0, 10, 10, 300);
    let b = boxed(20, 20, 40, 40, 900);
    assert_eq!(select_face(&vec![a, b], SelectionPolicy::First), Ok(a));
}

#[test]
fn select_face_highest_confidence_takes_best_score() {
    let a = boxed(0, 0, 10, 10, 300);
    let b = boxed(20, 20, 40, 40, 900);
    let c = boxed(50, 50, 60, 60, 900);
    let out = select_face(&vec![a, b, c], SelectionPolicy::HighestConfidence);
    // earliest wins the tie
    assert_eq!(out, Ok(b));
}

#[test]
fn select_face_largest_area_takes_biggest_box() {
    let a = boxed(0, 0, 10, 10, 900);
    let b = boxed(20, 20, 40, 40, 100);
    let out = select_face(&vec![a, b], SelectionPolicy::LargestArea);
    assert_eq!(out, Ok(b));
}

#[test]
fn crop_rect_inside_image_is_exact() {
    let face = boxed(10, 20, 30, 50, 800);
    let r = crop_rect(&face, 100, 100);
    assert_eq!(r, Ok(CropRect { x: 10, y: 20, width: 20, height: 30 }));
}

#[test]
fn crop_rect_clips_to_image_border() {
    let face = boxed(90, 90, 130, 140, 800);
    let r = crop_rect(&face, 100, 100);
    assert_eq!(r, Ok(CropRect { x: 90, y: 90, width: 10, height: 10 }));
}

#[test]
fn crop_rect_clamps_negative_corner_to_zero() {
    let face = boxed(-10, -5, 10, 10, 800);
    let r = crop_rect(&face, 100, 100);
    assert_eq!(r, Ok(CropRect { x: 0, y: 0, width: 10, height: 10 }));
}

#[test]
fn crop_rect_fully_outside_image_is_degenerate() {
    let face = boxed(200, 200, 250, 250, 800);
    let r = crop_rect(&face, 100, 100);
    assert_eq!(r, Err(PipelineError::DegenerateBoundingBox));
}

#[test]
fn crop_rect_inverted_corners_is_degenerate() {
    let face = boxed(50, 50, 20, 20, 800);
    let r = crop_rect(&face, 100, 100);
    assert_eq!(r, Err(PipelineError::DegenerateBoundingBox));
}

#[test]
fn crop_rect_zero_area_box_is_degenerate() {
    let face = boxed(50, 50, 50, 50, 800);
    let r = crop_rect(&face, 100, 100);
    assert_eq!(r, Err(PipelineError::DegenerateBoundingBox));
}

#[test]
fn embedding_input_from_box_outside_image_is_rejected() {
    let img = rgb_image(8, 8, vec![77; 3 * 8 * 8]);
    let face = boxed(100, 100, 120, 120, 800);
    let r = prepare_embedding_input(&img, &face, 8, 8, (4, 4));
    assert!(matches!(r, Err(PipelineError::DegenerateBoundingBox)));
}

#[test]
fn embedding_input_from_valid_box_has_planar_shape() {
    let img = rgb_image(8, 8, vec![77; 3 * 8 * 8]);
    let face = boxed(1, 1, 7, 7, 800);
    let t = prepare_embedding_input(&img, &face, 8, 8, (4, 4)).unwrap();
    assert_eq!(t.width, 4);
    assert_eq!(t.height, 4);
    assert_eq!(t.data, vec![77; 3 * 4 * 4]);
}

#[test]
fn embedding_input_really_cuts_the_face_region_out() {
    // left half red, right half blue; the face box covers the right half,
    // and the crop is already at the target size, so the tensor must hold
    // blue pixels only
    let mut raw: Vec<u8> = Vec::new();
    for _row in 0..2 {
        raw.extend_from_slice(&[255, 0, 0, 255, 0, 0, 0, 0, 255, 0, 0, 255]);
    }
    let img = rgb_image(4, 2, raw);
    let face = boxed(2, 0, 4, 2, 800);
    let t = prepare_embedding_input(&img, &face, 4, 2, (2, 2)).unwrap();
    assert_eq!(t.data, vec![0, 0, 0, 0, 0, 0, 0, 0, 255, 255, 255, 255]);
}

#[test]
fn detect_postprocess_decodes_and_suppresses() {
    // one attribute-major output of shape (5, 2): two candidates.
    // candidate 0: centered box, score 0.9; candidate 1: same box, score 0.7
    // (a duplicate that suppression at one half must drop).
    let cx = 160 * FRAC_SCALE;
    let wh = 64 * FRAC_SCALE;
    let data: Vec<i64> = vec![
        cx, cx, // cx of candidates 0 and 1
        cx, cx, // cy
        wh, wh, // w
        wh, wh, // h
        922, 717, // scores
    ];
    let out = detect_postprocess(&data, 5, 2, 320, 320, 320, 512, 512);
    assert_eq!(out.len(), 1);
    assert_eq!(
        out[0],
        FaceBox {
            x1: 128 * FRAC_SCALE,
            y1: 128 * FRAC_SCALE,
            x2: 192 * FRAC_SCALE,
            y2: 192 * FRAC_SCALE,
            confidence: 922,
        }
    );
}

#[test]
fn whole_pipeline_is_reproducible_on_fixed_inputs() {
    // fixed image and fixed engine stand-ins: the detector output below and
    // an embedding of the reference length; two runs agree bit for bit.
    let raw_pixels: Vec<u8> = (0u32..3 * 32 * 32).map(|i| (i % 251) as u8).collect();
    let cx = 16 * FRAC_SCALE;
    let wh = 12 * FRAC_SCALE;
    let detector_output: Vec<i64> = vec![cx, cx, cx, cx, wh, wh, wh, wh, 800, 300];
    let mocked_embedding: Vec<i64> = (0..128).collect();

    let mut runs = Vec::new();
    for _ in 0..2 {
        let img = rgb_image(32, 32, raw_pixels.clone());
        let boxes = detect_postprocess(&detector_output, 5, 2, 32, 32, 32, 512, 512);
        let face = select_face(&boxes, SelectionPolicy::First).unwrap();
        let tensor = prepare_embedding_input(&img, &face, 32, 32, (16, 16)).unwrap();
        let embedding = mocked_embedding.clone();
        assert_eq!(embedding.len(), 128);
        runs.push((boxes, tensor.data, embedding));
    }
    assert_eq!(runs[0], runs[1]);
}

#[test]
fn configs_carry_their_values() {
    let d = FaceDetectorConfig::new(
        String::from("detector.onnx"),
        String::from("images"),
        String::from("output0"),
        640,
        512,
        512,
    );
    assert_eq!(d.input_size, 640);
    assert_eq!(d.confidence_threshold, 512);
    assert_eq!(d.iou_threshold, 512);
    let f = FacenetConfig::new(
        String::from("facenet128.onnx"),
        String::from("input_1"),
        String::from("Bottleneck_BatchNorm"),
        160,
        128,
    );
    assert_eq!(f.input_size, 160);
    assert_eq!(f.embedding_len, 128);
}

#[test]
fn error_values_carry_their_messages() {
    let e = ImageError::OpenImageError(String::from("no such file"));
    assert!(matches!(e, ImageError::OpenImageError(ref m) if m == "no such file"));
    let m = ModelError::OrtInferenceError(String::from("bad shape"));
    assert!(matches!(m, ModelError::OrtInferenceError(_)));
}
