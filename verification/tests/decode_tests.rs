use facenet::decode::{best_score, decode, transpose_output};
use facenet::geometry::{FaceBox, FRAC_SCALE};

#[test]
fn best_score_takes_maximum_of_score_fields() {
    let row: Vec<i64> = vec![0, 0, 0, 0, 100, 900, 300];
    assert_eq!(best_score(&row), 900);
}

#[test]
fn row_below_threshold_contributes_zero_boxes() {
    // best score 400 stays below the threshold 512 (one half)
    let rows: Vec<Vec<i64>> = vec![vec![163840, 163840, 65536, 65536, 400]];
    let out = decode(&rows, 320, 320, 320, 512);
    assert_eq!(out.len(), 0);
}

#[test]
fn centered_row_decodes_to_centered_box() {
    // input size 320; cx = cy = 0.5 * 320 = 160, w = h = 0.2 * 320 = 64,
    // score 0.9; image dimensions equal the input size, threshold one half.
    let input_size: u32 = 320;
    let cx = 160 * FRAC_SCALE;
    let wh = 64 * FRAC_SCALE;
    let score = 922; // 0.9 in fixed-point, rounded up
    let rows: Vec<Vec<i64>> = vec![vec![cx, cx, wh, wh, score]];
    let out = decode(&rows, input_size, input_size, input_size, FRAC_SCALE / 2);
    assert_eq!(out.len(), 1);
    let expected = FaceBox {
        x1: 128 * FRAC_SCALE,
        y1: 128 * FRAC_SCALE,
        x2: 192 * FRAC_SCALE,
        y2: 192 * FRAC_SCALE,
        confidence: score,
    };
    assert_eq!(out[0], expected);
    // centered at 160 pixels with width and height of 64 pixels
    assert_eq!(out[0].x1 + out[0].x2, 2 * 160 * FRAC_SCALE);
    assert_eq!(out[0].x2 - out[0].x1, wh);
    assert_eq!(out[0].y2 - out[0].y1, wh);
}

#[test]
fn decode_denormalizes_against_image_dimensions() {
    // image twice as wide and half as tall as the detector space
    let rows: Vec<Vec<i64>> = vec![vec![160 * FRAC_SCALE, 160 * FRAC_SCALE, 64 * FRAC_SCALE,
        64 * FRAC_SCALE, 800]];
    let out = decode(&rows, 320, 640, 160, 512);
    assert_eq!(out.len(), 1);
    assert_eq!(out[0].x2 - out[0].x1, 128 * FRAC_SCALE);
    assert_eq!(out[0].y2 - out[0].y1, 32 * FRAC_SCALE);
    assert_eq!(out[0].x1 + out[0].x2, 2 * 320 * FRAC_SCALE);
    assert_eq!(out[0].y1 + out[0].y2, 2 * 80 * FRAC_SCALE);
}

#[test]
fn decode_keeps_row_order_and_skips_low_rows() {
    let lo = 10 * FRAC_SCALE;
    let hi = 20 * FRAC_SCALE;
    let rows: Vec<Vec<i64>> = vec![
        vec![lo, lo, lo, lo, 600],
        vec![hi, hi, lo, lo, 100], // below threshold, dropped
        vec![hi, hi, hi, hi, 700],
    ];
    let out = decode(&rows, 320, 320, 320, 512);
    assert_eq!(out.len(), 2);
    assert_eq!(out[0].confidence, 600);
    assert_eq!(out[1].confidence, 700);
}

#[test]
fn decode_keeps_row_at_threshold() {
    let rows: Vec<Vec<i64>> = vec![vec![0, 0, 0, 0, 512]];
    let out = decode(&rows, 320, 320, 320, 512);
    assert_eq!(out.len(), 1);
}

#[test]
fn transpose_output_reshapes_attribute_major_to_candidate_major() {
    // two attributes, three candidates: data[a][c] = 10 * a + c
    let data: Vec<i64> = vec![0, 1, 2, 10, 11, 12];
    let rows = transpose_output(&data, 2, 3);
    assert_eq!(rows.len(), 3);
    assert_eq!(rows[0], vec![0, 10]);
    assert_eq!(rows[1], vec![1, 11]);
    assert_eq!(rows[2], vec![2, 12]);
}
