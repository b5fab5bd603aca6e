//! Axis-aligned box algebra: area, intersection, union and
//! intersection-over-union over fixed-point pixel coordinates.

use vstd::prelude::*;

verus! {

/// Fixed-point scale: a stored `i64` value `v` stands for the real number
/// `v / FRAC_SCALE`. Confidences and IoU thresholds use the same scale, so
/// an IoU of one half is `FRAC_SCALE / 2`.
pub const FRAC_SCALE: i64 = 1024;

/// Largest coordinate magnitude of a well-formed box. Keeps every product
/// taken by the box algebra inside `i64`.
pub const COORD_MAX: i64 = 0x2000_0000;

/// A face candidate: corner coordinates in image space (fixed-point) and the
/// detector's confidence for it. A plain value object with no identity beyond
/// its fields.
#[derive(Clone, Copy, PartialEq, Eq, Structural, Debug)]
pub struct FaceBox {
    pub x1: i64,
    pub y1: i64,
    pub x2: i64,
    pub y2: i64,
    pub confidence: i64,
}

impl FaceBox {
    /// Coordinates small enough that areas and unions stay inside `i64`.
    /// Corners need not be ordered: a box with `x2 < x1` is degenerate but
    /// still representable, as a decoder is free to emit one.
    pub open spec fn bounded(self) -> bool {
        &&& -COORD_MAX <= self.x1 <= COORD_MAX
        &&& -COORD_MAX <= self.x2 <= COORD_MAX
        &&& -COORD_MAX <= self.y1 <= COORD_MAX
        &&& -COORD_MAX <= self.y2 <= COORD_MAX
    }

    /// Bounded and with ordered corners: what the box algebra works on.
    pub open spec fn wf(self) -> bool {
        &&& self.bounded()
        &&& self.x1 <= self.x2
        &&& self.y1 <= self.y2
    }
}

pub open spec fn spec_min(x: int, y: int) -> int {
    if x <= y {
        x
    } else {
        y
    }
}

pub open spec fn spec_max(x: int, y: int) -> int {
    if x >= y {
        x
    } else {
        y
    }
}

pub open spec fn area_spec(b: FaceBox) -> int {
    (b.x2 - b.x1) * (b.y2 - b.y1)
}

/// Overlap area of two boxes, clamped to zero for disjoint boxes so that a
/// negative "area" never corrupts the IoU downstream.
pub open spec fn inter_spec(a: FaceBox, b: FaceBox) -> int {
    let w = spec_min(a.x2 as int, b.x2 as int) - spec_max(a.x1 as int, b.x1 as int);
    let h = spec_min(a.y2 as int, b.y2 as int) - spec_max(a.y1 as int, b.y1 as int);
    spec_max(0, w) * spec_max(0, h)
}

pub open spec fn union_spec(a: FaceBox, b: FaceBox) -> int {
    area_spec(a) + area_spec(b) - inter_spec(a, b)
}

/// IoU as a fixed-point value in `[0, FRAC_SCALE]`; zero when the union is
/// empty (two zero-area boxes) rather than an undefined ratio.
pub open spec fn iou_spec(a: FaceBox, b: FaceBox) -> int {
    if union_spec(a, b) == 0 {
        0
    } else {
        inter_spec(a, b) * FRAC_SCALE / union_spec(a, b)
    }
}

pub fn area(b: &FaceBox) -> (r: i64)
    requires
        b.wf(),
    ensures
        r == area_spec(*b),
{
    let dx = b.x2 - b.x1;
    let dy = b.y2 - b.y1;
    proof {
        assert(dx * dy <= 0x4000_0000_0000_0000) by (nonlinear_arith)
            requires
                0 <= dx <= 0x4000_0000,
                0 <= dy <= 0x4000_0000,
        ;
        assert(dx * dy >= 0) by (nonlinear_arith)
            requires
                0 <= dx,
                0 <= dy,
        ;
    }
    dx * dy
}

/// Overlap area of `a` and `b`, zero when they are disjoint.
pub fn intersection(a: &FaceBox, b: &FaceBox) -> (r: i64)
    requires
        a.wf(),
        b.wf(),
    ensures
        r == inter_spec(*a, *b),
{
    let ix1 = if a.x1 >= b.x1 {
        a.x1
    } else {
        b.x1
    };
    let ix2 = if a.x2 <= b.x2 {
        a.x2
    } else {
        b.x2
    };
    let iy1 = if a.y1 >= b.y1 {
        a.y1
    } else {
        b.y1
    };
    let iy2 = if a.y2 <= b.y2 {
        a.y2
    } else {
        b.y2
    };
    let w = if ix2 >= ix1 {
        ix2 - ix1
    } else {
        0
    };
    let h = if iy2 >= iy1 {
        iy2 - iy1
    } else {
        0
    };
    proof {
        assert(w * h <= 0x4000_0000_0000_0000) by (nonlinear_arith)
            requires
                0 <= w <= 0x4000_0000,
                0 <= h <= 0x4000_0000,
        ;
        assert(w * h >= 0) by (nonlinear_arith)
            requires
                0 <= w,
                0 <= h,
        ;
    }
    w * h
}

/// Combined area of `a` and `b`: the two areas minus their overlap.
pub fn union(a: &FaceBox, b: &FaceBox) -> (r: i64)
    requires
        a.wf(),
        b.wf(),
    ensures
        r == union_spec(*a, *b),
{
    proof {
        lemma_inter_le_areas(*a, *b);
        lemma_area_bound(*a);
        lemma_area_bound(*b);
        lemma_inter_nonneg(*a, *b);
    }
    let aa = area(a);
    let ab = area(b);
    let i = intersection(a, b);
    aa + ab - i
}

/// IoU of `a` and `b` as a fixed-point value: `FRAC_SCALE` means the boxes
/// coincide, `0` that they are disjoint (or that the union is empty).
pub fn iou(a: &FaceBox, b: &FaceBox) -> (r: i64)
    requires
        a.wf(),
        b.wf(),
    ensures
        r == iou_spec(*a, *b),
        0 <= r <= FRAC_SCALE,
{
    let inter = intersection(a, b);
    let uni = union(a, b);
    proof {
        lemma_inter_nonneg(*a, *b);
        lemma_inter_le_union(*a, *b);
    }
    if uni == 0 {
        0
    } else {
        let num = (inter as u128) * (FRAC_SCALE as u128);
        let q = num / (uni as u128);
        proof {
            let interi = inter as int;
            let unii = uni as int;
            let scale = FRAC_SCALE as int;
            assert(interi * scale <= unii * scale) by (nonlinear_arith)
                requires
                    0 <= interi <= unii,
                    scale > 0,
            ;
            assert(unii * scale / unii == scale) by (nonlinear_arith)
                requires
                    unii > 0,
            ;
            assert(interi * scale / unii <= unii * scale / unii) by (nonlinear_arith)
                requires
                    0 <= interi * scale <= unii * scale,
                    unii > 0,
            ;
            assert(interi * scale / unii >= 0) by (nonlinear_arith)
                requires
                    interi * scale >= 0,
                    unii > 0,
            ;
        }
        q as i64
    }
}

pub proof fn lemma_area_nonneg(a: FaceBox)
    requires
        a.wf(),
    ensures
        area_spec(a) >= 0,
{
    assert((a.x2 - a.x1) * (a.y2 - a.y1) >= 0) by (nonlinear_arith)
        requires
            a.x2 - a.x1 >= 0,
            a.y2 - a.y1 >= 0,
    ;
}

/// A well-formed box's area fits comfortably inside `i64`.
pub proof fn lemma_area_bound(a: FaceBox)
    requires
        a.wf(),
    ensures
        0 <= area_spec(a) <= 0x1000_0000_0000_0000,
{
    assert((a.x2 - a.x1) * (a.y2 - a.y1) <= 0x1000_0000_0000_0000 && (a.x2 - a.x1) * (a.y2 - a.y1)
        >= 0) by (nonlinear_arith)
        requires
            0 <= a.x2 - a.x1 <= 0x4000_0000,
            0 <= a.y2 - a.y1 <= 0x4000_0000,
    ;
}

pub proof fn lemma_inter_nonneg(a: FaceBox, b: FaceBox)
    ensures
        inter_spec(a, b) >= 0,
{
    let w = spec_max(0, spec_min(a.x2 as int, b.x2 as int) - spec_max(a.x1 as int, b.x1 as int));
    let h = spec_max(0, spec_min(a.y2 as int, b.y2 as int) - spec_max(a.y1 as int, b.y1 as int));
    assert(w * h >= 0) by (nonlinear_arith)
        requires
            w >= 0,
            h >= 0,
    ;
}

/// The overlap of two boxes is no larger than either box.
pub proof fn lemma_inter_le_areas(a: FaceBox, b: FaceBox)
    requires
        a.wf(),
        b.wf(),
    ensures
        inter_spec(a, b) <= area_spec(a),
        inter_spec(a, b) <= area_spec(b),
{
    let w = spec_max(0, spec_min(a.x2 as int, b.x2 as int) - spec_max(a.x1 as int, b.x1 as int));
    let h = spec_max(0, spec_min(a.y2 as int, b.y2 as int) - spec_max(a.y1 as int, b.y1 as int));
    assert(w * h <= (a.x2 - a.x1) * (a.y2 - a.y1)) by (nonlinear_arith)
        requires
            0 <= w <= a.x2 - a.x1,
            0 <= h <= a.y2 - a.y1,
    ;
    assert(w * h <= (b.x2 - b.x1) * (b.y2 - b.y1)) by (nonlinear_arith)
        requires
            0 <= w <= b.x2 - b.x1,
            0 <= h <= b.y2 - b.y1,
    ;
}

/// The overlap never exceeds the union, so the IoU ratio cannot pass one.
pub proof fn lemma_inter_le_union(a: FaceBox, b: FaceBox)
    requires
        a.wf(),
        b.wf(),
    ensures
        0 <= inter_spec(a, b) <= union_spec(a, b),
{
    lemma_inter_nonneg(a, b);
    lemma_inter_le_areas(a, b);
    lemma_area_nonneg(a);
    lemma_area_nonneg(b);
}

/// A box overlaps itself in exactly its own area.
pub proof fn lemma_self_intersection(a: FaceBox)
    requires
        a.wf(),
    ensures
        inter_spec(a, a) == area_spec(a),
{
}

/// IoU is symmetric in its two arguments.
pub proof fn lemma_iou_symmetric(a: FaceBox, b: FaceBox)
    ensures
        inter_spec(a, b) == inter_spec(b, a),
        union_spec(a, b) == union_spec(b, a),
        iou_spec(a, b) == iou_spec(b, a),
{
}

/// The IoU of two well-formed boxes always lies in `[0, FRAC_SCALE]`, that
/// is, in `[0, 1]` as a real ratio.
pub proof fn lemma_iou_bounds(a: FaceBox, b: FaceBox)
    requires
        a.wf(),
        b.wf(),
    ensures
        0 <= iou_spec(a, b) <= FRAC_SCALE,
{
    lemma_inter_le_union(a, b);
    let inter = inter_spec(a, b);
    let uni = union_spec(a, b);
    if uni != 0 {
        assert(inter * FRAC_SCALE <= uni * FRAC_SCALE) by (nonlinear_arith)
            requires
                0 <= inter <= uni,
        ;
        assert(uni * FRAC_SCALE / uni == FRAC_SCALE) by (nonlinear_arith)
            requires
                uni > 0,
        ;
        assert(inter * FRAC_SCALE / uni <= uni * FRAC_SCALE / uni) by (nonlinear_arith)
            requires
                0 <= inter * FRAC_SCALE <= uni * FRAC_SCALE,
                uni > 0,
        ;
        assert(inter * FRAC_SCALE / uni >= 0) by (nonlinear_arith)
            requires
                inter * FRAC_SCALE >= 0,
                uni > 0,
        ;
    }
}

/// Two coinciding well-formed boxes of positive area have the full IoU.
pub proof fn lemma_iou_self(a: FaceBox)
    requires
        a.wf(),
        area_spec(a) > 0,
    ensures
        iou_spec(a, a) == FRAC_SCALE,
{
    lemma_self_intersection(a);
    let ar = area_spec(a);
    assert(ar * FRAC_SCALE / ar == FRAC_SCALE) by (nonlinear_arith)
        requires
            ar > 0,
    ;
}

/// Disjoint boxes have IoU zero.
pub proof fn lemma_iou_disjoint(a: FaceBox, b: FaceBox)
    requires
        inter_spec(a, b) == 0,
    ensures
        iou_spec(a, b) == 0,
{
    let uni = union_spec(a, b);
    if uni != 0 {
        assert(0 * FRAC_SCALE / uni == 0) by (nonlinear_arith)
            requires
                uni != 0,
        ;
    }
}

} // verus!
