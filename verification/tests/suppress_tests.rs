use facenet::geometry::{FaceBox, FRAC_SCALE};
use facenet::suppress::{sort_by_confidence, suppress};

fn boxed(x1: i64, y1: i64, x2: i64, y2: i64, confidence: i64) -> FaceBox {
    FaceBox {
        x1: x1 * FRAC_SCALE,
        y1: y1 * FRAC_SCALE,
        x2: x2 * FRAC_SCALE,
        y2: y2 * FRAC_SCALE,
        confidence,
    }
}

#[test]
fn two_identical_boxes_collapse_to_one() {
    let b = boxed(0, 0, 10, 10, 800);
    let input = vec![b, b];
    let out = suppress(&input, FRAC_SCALE / 2);
    assert_eq!(out, vec![b]);
}

#[test]
fn two_disjoint_boxes_both_survive_in_confidence_order() {
    let a = boxed(0, 0, 10, 10, 300);
    let b = boxed(50, 50, 60, 60, 900);
    // threshold 0.9 in fixed-point
    let t = 922;
    let out = suppress(&vec![a, b], t);
    assert_eq!(out, vec![b, a]);
}

#[test]
fn empty_input_yields_empty_output() {
    let input: Vec<FaceBox> = Vec::new();
    let out = suppress(&input, FRAC_SCALE / 2);
    assert_eq!(out.len(), 0);
}

#[test]
fn overlapping_lower_confidence_box_is_discarded() {
    let winner = boxed(0, 0, 10, 10, 900);
    let duplicate = boxed(1, 1, 11, 11, 700); // IoU well above one half
    let separate = boxed(40, 40, 50, 50, 500);
    let out = suppress(&vec![duplicate, winner, separate], FRAC_SCALE / 2);
    assert_eq!(out, vec![winner, separate]);
}

#[test]
fn box_overlapping_exactly_at_threshold_is_discarded() {
    // b is the left half of a: IoU is exactly one half, and boxes at or
    // above the threshold are dropped
    let a = boxed(0, 0, 10, 10, 900);
    let b = boxed(0, 0, 5, 10, 800);
    let out = suppress(&vec![a, b], FRAC_SCALE / 2);
    assert_eq!(out, vec![a]);
}

#[test]
fn box_overlapping_just_below_threshold_survives() {
    let a = boxed(0, 0, 10, 10, 900);
    let b = boxed(0, 0, 5, 10, 800);
    let out = suppress(&vec![a, b], FRAC_SCALE / 2 + 1);
    assert_eq!(out, vec![a, b]);
}

#[test]
fn result_is_sorted_by_confidence_descending() {
    let a = boxed(0, 0, 10, 10, 200);
    let b = boxed(40, 0, 50, 10, 900);
    let c = boxed(80, 0, 90, 10, 500);
    let out = suppress(&vec![a, b, c], FRAC_SCALE / 2);
    assert_eq!(out, vec![b, c, a]);
}

#[test]
fn equal_confidence_keeps_original_order() {
    let first = boxed(0, 0, 10, 10, 700);
    let second = boxed(40, 0, 50, 10, 700);
    let out = suppress(&vec![first, second], FRAC_SCALE / 2);
    assert_eq!(out, vec![first, second]);
}

#[test]
fn sort_by_confidence_is_stable_descending() {
    let a = boxed(0, 0, 1, 1, 500);
    let b = boxed(1, 1, 2, 2, 900);
    let c = boxed(2, 2, 3, 3, 500);
    let out = sort_by_confidence(&vec![a, b, c]);
    assert_eq!(out, vec![b, a, c]);
}
