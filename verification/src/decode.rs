//! Detection decoder: turns a raw detector output tensor into candidate face
//! boxes. Each candidate row holds `[cx, cy, w, h, score..]` in the
//! detector's own coordinate space (`0 .. input_size`, fixed-point); a row is
//! kept when its best score reaches the confidence threshold, denormalized to
//! image space and converted from center form to corner form.

use vstd::prelude::*;
use crate::geometry::FRAC_SCALE;
use crate::geometry::FaceBox;

verus! {

/// Largest accepted detector input resolution.
pub const MAX_INPUT_SIZE: u32 = 65535;

/// Largest accepted image dimension for denormalization.
pub const MAX_IMAGE_DIM: u32 = 65535;

/// A candidate row: the four center-form coordinates in the detector's
/// `0 .. input_size` space, then at least one score field.
pub open spec fn row_wf(row: Seq<i64>, input_size: u32) -> bool {
    &&& row.len() >= 5
    &&& forall|j: int| 0 <= j < 4 ==> 0 <= #[trigger] row[j] <= input_size * FRAC_SCALE
}

/// Largest value of a sequence; the smallest `i64` when it is empty.
pub open spec fn seq_max(s: Seq<i64>) -> int
    decreases s.len(),
{
    if s.len() == 0 {
        i64::MIN as int
    } else {
        let m = seq_max(s.drop_last());
        if s.last() > m {
            s.last() as int
        } else {
            m
        }
    }
}

pub proof fn lemma_seq_max_bounds(s: Seq<i64>)
    ensures
        i64::MIN <= seq_max(s) <= i64::MAX,
    decreases s.len(),
{
    if s.len() > 0 {
        lemma_seq_max_bounds(s.drop_last());
    }
}

/// The confidence of a row: the best of its score fields, whatever their
/// number or semantics.
pub open spec fn row_confidence(row: Seq<i64>) -> int {
    seq_max(row.skip(4))
}

/// A detector-space value mapped to image space: divided by the input size,
/// multiplied by the image dimension (in this order of operations the
/// division comes last, keeping fixed-point precision).
pub open spec fn denorm_spec(v: i64, dim: u32, input_size: u32) -> int {
    v * dim / (input_size as int)
}

/// The box a kept row decodes to: center form denormalized to image space,
/// then converted to corner form.
pub open spec fn decode_row_spec(row: Seq<i64>, input_size: u32, img_w: u32, img_h: u32) -> FaceBox {
    let xc = denorm_spec(row[0], img_w, input_size);
    let yc = denorm_spec(row[1], img_h, input_size);
    let w = denorm_spec(row[2], img_w, input_size);
    let h = denorm_spec(row[3], img_h, input_size);
    FaceBox {
        x1: (xc - w / 2) as i64,
        y1: (yc - h / 2) as i64,
        x2: (xc + w / 2) as i64,
        y2: (yc + h / 2) as i64,
        confidence: row_confidence(row) as i64,
    }
}

/// What decoding emits: the kept rows' boxes, in row order, no sorting.
pub open spec fn decode_spec(
    rows: Seq<Seq<i64>>,
    input_size: u32,
    img_w: u32,
    img_h: u32,
    threshold: i64,
) -> Seq<FaceBox>
    decreases rows.len(),
{
    if rows.len() == 0 {
        Seq::empty()
    } else {
        let prefix = decode_spec(rows.drop_last(), input_size, img_w, img_h, threshold);
        if row_confidence(rows.last()) >= threshold {
            prefix + seq![decode_row_spec(rows.last(), input_size, img_w, img_h)]
        } else {
            prefix
        }
    }
}

/// The best score of a row: the maximum over its score fields.
pub fn best_score(row: &Vec<i64>) -> (m: i64)
    requires
        row@.len() >= 5,
    ensures
        m == row_confidence(row@),
{
    let mut m: i64 = i64::MIN;
    let mut j: usize = 4;
    proof {
        assert(row@.subrange(4, 4) =~= Seq::<i64>::empty());
    }
    while j < row.len()
        invariant
            4 <= j <= row@.len(),
            m == seq_max(row@.subrange(4, j as int)),
        decreases row@.len() - j,
    {
        proof {
            assert(row@.subrange(4, j + 1).drop_last() =~= row@.subrange(4, j as int));
            assert(row@.subrange(4, j + 1).last() == row@[j as int]);
            lemma_seq_max_bounds(row@.subrange(4, j as int));
        }
        if row[j] > m {
            m = row[j];
        }
        j = j + 1;
    }
    proof {
        assert(row@.subrange(4, row@.len() as int) =~= row@.skip(4));
    }
    m
}

fn denorm(v: i64, dim: u32, input_size: u32) -> (r: i64)
    requires
        1 <= input_size <= MAX_INPUT_SIZE,
        dim <= MAX_IMAGE_DIM,
        0 <= v <= input_size * FRAC_SCALE,
    ensures
        r == denorm_spec(v, dim, input_size),
        0 <= r <= dim * FRAC_SCALE,
{
    proof {
        assert((v as int) * (dim as int) <= (input_size as int) * (FRAC_SCALE as int) * (dim
            as int) && 0 <= (v as int) * (dim as int)) by (nonlinear_arith)
            requires
                0 <= v <= (input_size as int) * (FRAC_SCALE as int),
                0 <= dim,
        ;
        assert((input_size as int) * (FRAC_SCALE as int) * (dim as int) <= 0xffff * 1024 * 0xffff)
            by (nonlinear_arith)
            requires
                0 <= input_size <= 0xffff,
                0 <= dim <= 0xffff,
                FRAC_SCALE == 1024,
        ;
    }
    let num: u64 = (v as u64) * (dim as u64);
    let r: u64 = num / (input_size as u64);
    proof {
        let vi = v as int;
        let di = dim as int;
        let si = input_size as int;
        assert(vi * di / si <= di * FRAC_SCALE && vi * di / si >= 0) by (nonlinear_arith)
            requires
                0 <= vi <= si * (FRAC_SCALE as int),
                0 <= di,
                1 <= si,
        ;
    }
    r as i64
}

/// Decodes one kept row into a face box.
fn decode_row(row: &Vec<i64>, input_size: u32, img_w: u32, img_h: u32) -> (b: FaceBox)
    requires
        row_wf(row@, input_size),
        1 <= input_size <= MAX_INPUT_SIZE,
        img_w <= MAX_IMAGE_DIM,
        img_h <= MAX_IMAGE_DIM,
    ensures
        b == decode_row_spec(row@, input_size, img_w, img_h),
        b.wf(),
{
    let xc = denorm(row[0], img_w, input_size);
    let yc = denorm(row[1], img_h, input_size);
    let w = denorm(row[2], img_w, input_size);
    let h = denorm(row[3], img_h, input_size);
    let conf = best_score(row);
    proof {
        lemma_seq_max_bounds(row@.skip(4));
    }
    let half_w = w / 2;
    let half_h = h / 2;
    FaceBox {
        x1: xc - half_w,
        y1: yc - half_h,
        x2: xc + half_w,
        y2: yc + half_h,
        confidence: conf,
    }
}

/// Decodes a whole detector output: keeps each row whose best score reaches
/// `threshold`, denormalizes it against the image dimensions and emits the
/// boxes in row order. All emitted boxes are well formed.
pub fn decode(rows: &Vec<Vec<i64>>, input_size: u32, img_w: u32, img_h: u32, threshold: i64) -> (out:
    Vec<FaceBox>)
    requires
        1 <= input_size <= MAX_INPUT_SIZE,
        img_w <= MAX_IMAGE_DIM,
        img_h <= MAX_IMAGE_DIM,
        forall|r: int| 0 <= r < rows@.len() ==> row_wf(#[trigger] rows@[r]@, input_size),
    ensures
        out@ == decode_spec(rows.deep_view(), input_size, img_w, img_h, threshold),
        forall|i: int| 0 <= i < out@.len() ==> (#[trigger] out@[i]).wf(),
{
    let ghost all = rows.deep_view();
    let mut out: Vec<FaceBox> = Vec::new();
    let mut r: usize = 0;
    proof {
        assert(all.take(0) =~= Seq::<Seq<i64>>::empty());
    }
    while r < rows.len()
        invariant
            r <= rows@.len(),
            all == rows.deep_view(),
            1 <= input_size <= MAX_INPUT_SIZE,
            img_w <= MAX_IMAGE_DIM,
            img_h <= MAX_IMAGE_DIM,
            forall|k: int| 0 <= k < rows@.len() ==> row_wf(#[trigger] rows@[k]@, input_size),
            out@ == decode_spec(all.take(r as int), input_size, img_w, img_h, threshold),
            forall|i: int| 0 <= i < out@.len() ==> (#[trigger] out@[i]).wf(),
        decreases rows@.len() - r,
    {
        proof {
            assert(all[r as int] == rows@[r as int]@);
            assert(all.take(r + 1).drop_last() =~= all.take(r as int));
            assert(all.take(r + 1).last() == all[r as int]);
        }
        let best = best_score(&rows[r]);
        if best >= threshold {
            let b = decode_row(&rows[r], input_size, img_w, img_h);
            out.push(b);
        }
        r = r + 1;
    }
    proof {
        assert(all.take(rows@.len() as int) =~= all);
    }
    out
}

/// The detector output seen candidate-major: entry `(c, a)` of the result is
/// entry `(a, c)` of the flat attribute-major buffer.
pub open spec fn transposed_spec(data: Seq<i64>, num_attrs: int, num_candidates: int) -> Seq<
    Seq<i64>,
> {
    Seq::new(
        num_candidates as nat,
        |c: int| Seq::new(num_attrs as nat, |a: int| data[a * num_candidates + c]),
    )
}

/// Reshapes the flat attribute-major engine output (`num_attrs` rows of
/// `num_candidates` values) into one row of attributes per candidate.
pub fn transpose_output(data: &Vec<i64>, num_attrs: usize, num_candidates: usize) -> (rows: Vec<
    Vec<i64>,
>)
    requires
        data@.len() == num_attrs * num_candidates,
        num_attrs * num_candidates <= usize::MAX,
    ensures
        rows.deep_view() == transposed_spec(data@, num_attrs as int, num_candidates as int),
        rows@.len() == num_candidates,
        forall|c: int| 0 <= c < num_candidates ==> (#[trigger] rows@[c])@.len() == num_attrs,
{
    let mut rows: Vec<Vec<i64>> = Vec::new();
    let mut c: usize = 0;
    while c < num_candidates
        invariant
            c <= num_candidates,
            data@.len() == num_attrs * num_candidates,
            num_attrs * num_candidates <= usize::MAX,
            rows@.len() == c,
            forall|k: int| 0 <= k < c ==> (#[trigger] rows@[k])@.len() == num_attrs,
            forall|k: int, a: int|
                0 <= k < c && 0 <= a < num_attrs ==> (#[trigger] rows@[k]@[a]) == data@[a
                    * num_candidates + k],
        decreases num_candidates - c,
    {
        let mut row: Vec<i64> = Vec::new();
        let mut a: usize = 0;
        while a < num_attrs
            invariant
                a <= num_attrs,
                c < num_candidates,
                data@.len() == num_attrs * num_candidates,
                num_attrs * num_candidates <= usize::MAX,
                row@.len() == a,
                forall|q: int| 0 <= q < a ==> #[trigger] row@[q] == data@[q * num_candidates + c],
            decreases num_attrs - a,
        {
            proof {
                assert(a * num_candidates + c < num_attrs * num_candidates && a * num_candidates + c
                    >= 0) by (nonlinear_arith)
                    requires
                        0 <= a < num_attrs,
                        0 <= c < num_candidates,
                ;
            }
            let v = data[a * num_candidates + c];
            row.push(v);
            a = a + 1;
        }
        rows.push(row);
        c = c + 1;
    }
    proof {
        assert(rows.deep_view() =~~= transposed_spec(data@, num_attrs as int, num_candidates
            as int));
    }
    rows
}

/// A row below the confidence threshold decodes to nothing.
pub proof fn lemma_below_threshold_row_empty(
    row: Seq<i64>,
    input_size: u32,
    img_w: u32,
    img_h: u32,
    threshold: i64,
)
    requires
        row_confidence(row) < threshold,
    ensures
        decode_spec(seq![row], input_size, img_w, img_h, threshold) =~= Seq::<FaceBox>::empty(),
{
    assert(seq![row].drop_last() =~= Seq::<Seq<i64>>::empty());
    assert(seq![row].last() == row);
    assert(decode_spec(Seq::<Seq<i64>>::empty(), input_size, img_w, img_h, threshold)
        == Seq::<FaceBox>::empty());
}

/// Decoding distributes over concatenation of candidate rows.
pub proof fn lemma_decode_append(
    rows1: Seq<Seq<i64>>,
    rows2: Seq<Seq<i64>>,
    input_size: u32,
    img_w: u32,
    img_h: u32,
    threshold: i64,
)
    ensures
        decode_spec(rows1 + rows2, input_size, img_w, img_h, threshold) == decode_spec(rows1,
        input_size, img_w, img_h, threshold) + decode_spec(rows2, input_size, img_w, img_h,
        threshold),
    decreases rows2.len(),
{
    if rows2.len() == 0 {
        assert(rows1 + rows2 =~= rows1);
        assert(decode_spec(rows1, input_size, img_w, img_h, threshold) + decode_spec(rows2,
            input_size, img_w, img_h, threshold) =~= decode_spec(rows1, input_size, img_w, img_h,
            threshold));
    } else {
        lemma_decode_append(rows1, rows2.drop_last(), input_size, img_w, img_h, threshold);
        assert((rows1 + rows2).drop_last() =~= rows1 + rows2.drop_last());
        assert((rows1 + rows2).last() == rows2.last());
        if row_confidence(rows2.last()) >= threshold {
            assert(decode_spec(rows1, input_size, img_w, img_h, threshold) + (decode_spec(
                rows2.drop_last(), input_size, img_w, img_h, threshold) + seq![decode_row_spec(
                rows2.last(), input_size, img_w, img_h)]) =~= (decode_spec(rows1, input_size,
                img_w, img_h, threshold) + decode_spec(rows2.drop_last(), input_size, img_w, img_h,
                threshold)) + seq![decode_row_spec(rows2.last(), input_size, img_w, img_h)]);
        }
    }
}

/// A row whose best score is below the threshold contributes zero boxes:
/// decoding with it present equals decoding with it removed.
pub proof fn lemma_below_threshold_contributes_nothing(
    pre: Seq<Seq<i64>>,
    row: Seq<i64>,
    post: Seq<Seq<i64>>,
    input_size: u32,
    img_w: u32,
    img_h: u32,
    threshold: i64,
)
    requires
        row_confidence(row) < threshold,
    ensures
        decode_spec(pre + seq![row] + post, input_size, img_w, img_h, threshold) == decode_spec(
        pre + post, input_size, img_w, img_h, threshold),
{
    lemma_decode_append(pre + seq![row], post, input_size, img_w, img_h, threshold);
    lemma_decode_append(pre, seq![row], input_size, img_w, img_h, threshold);
    lemma_decode_append(pre, post, input_size, img_w, img_h, threshold);
    lemma_below_threshold_row_empty(row, input_size, img_w, img_h, threshold);
    assert(decode_spec(pre, input_size, img_w, img_h, threshold) + decode_spec(seq![row],
        input_size, img_w, img_h, threshold) =~= decode_spec(pre, input_size, img_w, img_h,
        threshold));
}

} // verus!
