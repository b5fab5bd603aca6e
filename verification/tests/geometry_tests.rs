use facenet::geometry::{area, intersection, iou, union, FaceBox, FRAC_SCALE};

fn px(v: i64) -> i64 {
    v * FRAC_SCALE
}

fn boxed(x1: i64, y1: i64, x2: i64, y2: i64, confidence: i64) -> FaceBox {
    FaceBox { x1: px(x1), y1: px(y1), x2: px(x2), y2: px(y2), confidence }
}

#[test]
fn intersection_of_box_with_itself_is_its_area() {
    let a = boxed(0, 0, 10, 10, 800);
    assert!(area(&a) > 0);
    assert_eq!(intersection(&a, &a), area(&a));
}

#[test]
fn intersection_of_disjoint_boxes_is_clamped_to_zero() {
    let a = boxed(0, 0, 10, 10, 800);
    let b = boxed(20, 20, 30, 30, 700);
    assert_eq!(intersection(&a, &b), 0);
}

#[test]
fn intersection_exact_value_on_overlap() {
    let a = boxed(0, 0, 10, 10, 800);
    let b = boxed(5, 0, 15, 10, 700);
    // overlap is 5 x 10 pixels, in fixed-point units squared
    assert_eq!(intersection(&a, &b), 5 * FRAC_SCALE * 10 * FRAC_SCALE);
}

#[test]
fn union_exact_value_on_overlap() {
    let a = boxed(0, 0, 10, 10, 800);
    let b = boxed(5, 0, 15, 10, 700);
    let expected = area(&a) + area(&b) - intersection(&a, &b);
    assert_eq!(union(&a, &b), expected);
}

#[test]
fn iou_is_symmetric() {
    let a = boxed(0, 0, 10, 10, 800);
    let b = boxed(5, 3, 15, 13, 700);
    assert_eq!(iou(&a, &b), iou(&b, &a));
    let c = boxed(100, 100, 110, 110, 600);
    assert_eq!(iou(&a, &c), iou(&c, &a));
}

#[test]
fn iou_stays_within_unit_range() {
    let pairs = [
        (boxed(0, 0, 10, 10, 800), boxed(5, 3, 15, 13, 700)),
        (boxed(0, 0, 10, 10, 800), boxed(0, 0, 10, 10, 700)),
        (boxed(0, 0, 10, 10, 800), boxed(50, 50, 60, 60, 700)),
        (boxed(-5, -5, 5, 5, 800), boxed(0, 0, 3, 3, 700)),
    ];
    for (a, b) in pairs.iter() {
        let r = iou(a, b);
        assert!(0 <= r && r <= FRAC_SCALE);
    }
}

#[test]
fn iou_of_identical_boxes_is_one() {
    let a = boxed(2, 3, 12, 23, 800);
    assert_eq!(iou(&a, &a), FRAC_SCALE);
}

#[test]
fn iou_exact_half_overlap() {
    // b covers exactly the left half of a; overlap = area(b), union = area(a)
    let a = boxed(0, 0, 10, 10, 800);
    let b = boxed(0, 0, 5, 10, 700);
    assert_eq!(iou(&a, &b), FRAC_SCALE / 2);
}

#[test]
fn iou_of_zero_union_is_defined_zero() {
    // two zero-area boxes: union is zero, the sentinel result is zero
    let a = boxed(5, 5, 5, 5, 800);
    let b = boxed(5, 5, 5, 5, 700);
    assert_eq!(union(&a, &b), 0);
    assert_eq!(iou(&a, &b), 0);
}

#[test]
fn iou_of_disjoint_boxes_is_zero() {
    let a = boxed(0, 0, 10, 10, 800);
    let b = boxed(30, 30, 40, 40, 700);
    assert_eq!(iou(&a, &b), 0);
}
