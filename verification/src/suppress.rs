//! Greedy non-maximum suppression: sort candidates by confidence, repeatedly
//! keep the most confident remaining box and discard every remaining box
//! overlapping it at or above the IoU threshold. Only boxes with IoU strictly
//! below the threshold survive a round.

use vstd::prelude::*;
use crate::geometry::FRAC_SCALE;
use crate::geometry::FaceBox;
use crate::geometry::area_spec;
use crate::geometry::inter_spec;
use crate::geometry::iou;
use crate::geometry::iou_spec;
use crate::geometry::lemma_iou_disjoint;
use crate::geometry::lemma_iou_self;
use crate::geometry::lemma_iou_symmetric;

verus! {

/// Where a box later in the original order lands in an already sorted run:
/// after every box of confidence at least its own (stable tie-break).
pub open spec fn insert_desc(s: Seq<FaceBox>, b: FaceBox) -> Seq<FaceBox>
    decreases s.len(),
{
    if s.len() == 0 {
        seq![b]
    } else if s[0].confidence >= b.confidence {
        seq![s[0]] + insert_desc(s.drop_first(), b)
    } else {
        seq![b] + s
    }
}

/// Sort by confidence, descending; boxes of equal confidence keep their
/// original order.
pub open spec fn sort_desc(s: Seq<FaceBox>) -> Seq<FaceBox>
    decreases s.len(),
{
    if s.len() == 0 {
        Seq::empty()
    } else {
        insert_desc(sort_desc(s.drop_last()), s.last())
    }
}

pub open spec fn sorted_desc(s: Seq<FaceBox>) -> bool {
    forall|i: int, j: int| 0 <= i < j < s.len() ==> s[i].confidence >= s[j].confidence
}

/// Survivors of one suppression round: the boxes whose IoU with the
/// just-kept box stays strictly below the threshold, in their given order.
pub open spec fn keep_low_iou(s: Seq<FaceBox>, lead: FaceBox, t: i64) -> Seq<FaceBox>
    decreases s.len(),
{
    if s.len() == 0 {
        Seq::empty()
    } else {
        let rest = keep_low_iou(s.drop_last(), lead, t);
        if iou_spec(lead, s.last()) < t {
            rest + seq![s.last()]
        } else {
            rest
        }
    }
}

pub proof fn lemma_keep_low_iou_len(s: Seq<FaceBox>, lead: FaceBox, t: i64)
    ensures
        keep_low_iou(s, lead, t).len() <= s.len(),
    decreases s.len(),
{
    if s.len() > 0 {
        lemma_keep_low_iou_len(s.drop_last(), lead, t);
    }
}

/// Every survivor of a round was among the round's candidates.
pub proof fn lemma_keep_low_iou_elems(s: Seq<FaceBox>, lead: FaceBox, t: i64)
    ensures
        forall|i: int|
            0 <= i < keep_low_iou(s, lead, t).len() ==> s.contains(
                #[trigger] keep_low_iou(s, lead, t)[i],
            ),
    decreases s.len(),
{
    if s.len() > 0 {
        lemma_keep_low_iou_elems(s.drop_last(), lead, t);
        assert forall|i: int| 0 <= i < keep_low_iou(s, lead, t).len() implies s.contains(
            keep_low_iou(s, lead, t)[i],
        ) by {
            let kept = keep_low_iou(s, lead, t);
            let rest = keep_low_iou(s.drop_last(), lead, t);
            if i < rest.len() {
                assert(s.drop_last().contains(rest[i]));
                let j = choose|j: int| 0 <= j < s.drop_last().len() && s.drop_last()[j] == rest[i];
                assert(s[j] == rest[i]);
            } else {
                assert(kept[i] == s.last());
            }
        }
    }
}

/// Every survivor of a round overlaps the kept box strictly below the
/// threshold.
pub proof fn lemma_keep_low_iou_below(s: Seq<FaceBox>, lead: FaceBox, t: i64)
    ensures
        forall|i: int|
            0 <= i < keep_low_iou(s, lead, t).len() ==> iou_spec(
                lead,
                #[trigger] keep_low_iou(s, lead, t)[i],
            ) < t,
    decreases s.len(),
{
    if s.len() > 0 {
        lemma_keep_low_iou_below(s.drop_last(), lead, t);
        let kept = keep_low_iou(s, lead, t);
        let rest = keep_low_iou(s.drop_last(), lead, t);
        assert forall|i: int| 0 <= i < kept.len() implies iou_spec(lead, #[trigger] kept[i])
            < t by {
            if i < rest.len() {
                assert(kept[i] == rest[i]);
            } else {
                assert(kept[i] == s.last());
            }
        }
    }
}

#[via_fn]
proof fn nms_spec_decreases(s: Seq<FaceBox>, t: i64) {
    if s.len() > 0 {
        lemma_keep_low_iou_len(s.drop_first(), s[0], t);
    }
}

/// Greedy non-maximum suppression over an already sorted candidate list:
/// keep the head, drop every later box overlapping it at or above the
/// threshold, repeat on the survivors.
pub open spec fn nms_spec(s: Seq<FaceBox>, t: i64) -> Seq<FaceBox>
    decreases s.len(),
    via nms_spec_decreases
{
    if s.len() == 0 {
        Seq::empty()
    } else {
        seq![s[0]] + nms_spec(keep_low_iou(s.drop_first(), s[0], t), t)
    }
}

/// Every box the suppression keeps was among its candidates.
pub proof fn lemma_nms_elems(s: Seq<FaceBox>, t: i64)
    ensures
        forall|i: int| 0 <= i < nms_spec(s, t).len() ==> s.contains(#[trigger] nms_spec(s, t)[i]),
    decreases s.len(),
{
    if s.len() > 0 {
        let survivors = keep_low_iou(s.drop_first(), s[0], t);
        lemma_keep_low_iou_len(s.drop_first(), s[0], t);
        lemma_nms_elems(survivors, t);
        lemma_keep_low_iou_elems(s.drop_first(), s[0], t);
        assert forall|i: int| 0 <= i < nms_spec(s, t).len() implies s.contains(
            #[trigger] nms_spec(s, t)[i],
        ) by {
            if i == 0 {
                assert(nms_spec(s, t)[0] == s[0]);
                assert(s.contains(s[0]));
            } else {
                let e = nms_spec(s, t)[i];
                assert(e == nms_spec(survivors, t)[i - 1]);
                assert(survivors.contains(e));
                let j = choose|j: int| 0 <= j < survivors.len() && survivors[j] == e;
                assert(s.drop_first().contains(survivors[j]));
                let k = choose|k: int|
                    0 <= k < s.drop_first().len() && s.drop_first()[k] == survivors[j];
                assert(s[k + 1] == e);
            }
        }
    }
}

/// A suppression round keeps the candidates' order, so a sorted run stays
/// sorted.
pub proof fn lemma_keep_low_iou_sorted(s: Seq<FaceBox>, lead: FaceBox, t: i64)
    requires
        sorted_desc(s),
    ensures
        sorted_desc(keep_low_iou(s, lead, t)),
    decreases s.len(),
{
    if s.len() > 0 {
        assert(sorted_desc(s.drop_last()));
        lemma_keep_low_iou_sorted(s.drop_last(), lead, t);
        lemma_keep_low_iou_elems(s.drop_last(), lead, t);
        let kept = keep_low_iou(s, lead, t);
        let rest = keep_low_iou(s.drop_last(), lead, t);
        assert forall|i: int, j: int|
            0 <= i < j < kept.len() implies (#[trigger] kept[i]).confidence >= (
        #[trigger] kept[j]).confidence by {
            if j < rest.len() {
                assert(kept[i] == rest[i] && kept[j] == rest[j]);
            } else if kept =~= rest + seq![s.last()] {
                assert(kept[i] == rest[i]);
                assert(kept[j] == s.last());
                assert(s.drop_last().contains(rest[i]));
                let k = choose|k: int|
                    0 <= k < s.drop_last().len() && s.drop_last()[k] == rest[i];
                assert(s[k].confidence >= s[s.len() - 1].confidence);
            }
        }
    }
}

/// Suppression keeps the confidence-descending order of its candidates.
pub proof fn lemma_nms_sorted(s: Seq<FaceBox>, t: i64)
    requires
        sorted_desc(s),
    ensures
        sorted_desc(nms_spec(s, t)),
    decreases s.len(),
{
    if s.len() > 0 {
        let survivors = keep_low_iou(s.drop_first(), s[0], t);
        assert(sorted_desc(s.drop_first()));
        lemma_keep_low_iou_sorted(s.drop_first(), s[0], t);
        lemma_keep_low_iou_len(s.drop_first(), s[0], t);
        lemma_nms_sorted(survivors, t);
        lemma_nms_elems(survivors, t);
        lemma_keep_low_iou_elems(s.drop_first(), s[0], t);
        let r = nms_spec(s, t);
        assert forall|i: int, j: int|
            0 <= i < j < r.len() implies (#[trigger] r[i]).confidence >= (
        #[trigger] r[j]).confidence by {
            if i > 0 {
                assert(r[i] == nms_spec(survivors, t)[i - 1]);
                assert(r[j] == nms_spec(survivors, t)[j - 1]);
            } else {
                assert(r[0] == s[0]);
                assert(r[j] == nms_spec(survivors, t)[j - 1]);
                assert(survivors.contains(r[j]));
                let k = choose|k: int| 0 <= k < survivors.len() && survivors[k] == r[j];
                assert(s.drop_first().contains(survivors[k]));
                let m = choose|m: int|
                    0 <= m < s.drop_first().len() && s.drop_first()[m] == survivors[k];
                assert(s[m + 1] == r[j]);
                assert(s[0].confidence >= s[m + 1].confidence);
            }
        }
    }
}

/// Any two boxes the suppression keeps overlap strictly below the threshold:
/// the earlier (more confident) of the pair was the round winner that would
/// otherwise have discarded the later one.
pub proof fn lemma_nms_pairwise_low_overlap(s: Seq<FaceBox>, t: i64)
    ensures
        forall|i: int, j: int|
            0 <= i < j < nms_spec(s, t).len() ==> iou_spec(
                #[trigger] nms_spec(s, t)[i],
                #[trigger] nms_spec(s, t)[j],
            ) < t,
    decreases s.len(),
{
    if s.len() > 0 {
        let survivors = keep_low_iou(s.drop_first(), s[0], t);
        lemma_keep_low_iou_len(s.drop_first(), s[0], t);
        lemma_nms_pairwise_low_overlap(survivors, t);
        lemma_nms_elems(survivors, t);
        lemma_keep_low_iou_below(s.drop_first(), s[0], t);
        let r = nms_spec(s, t);
        assert forall|i: int, j: int| 0 <= i < j < r.len() implies iou_spec(
            #[trigger] r[i],
            #[trigger] r[j],
        ) < t by {
            if i > 0 {
                assert(r[i] == nms_spec(survivors, t)[i - 1]);
                assert(r[j] == nms_spec(survivors, t)[j - 1]);
            } else {
                assert(r[0] == s[0]);
                assert(r[j] == nms_spec(survivors, t)[j - 1]);
                assert(survivors.contains(r[j]));
                let k = choose|k: int| 0 <= k < survivors.len() && survivors[k] == r[j];
                assert(iou_spec(s[0], survivors[k]) < t);
            }
        }
    }
}

/// Inserting into a sorted run keeps it sorted.
proof fn lemma_insert_desc_sorted(s: Seq<FaceBox>, b: FaceBox)
    requires
        sorted_desc(s),
    ensures
        sorted_desc(insert_desc(s, b)),
    decreases s.len(),
{
    if s.len() == 0 {
    } else if s[0].confidence >= b.confidence {
        assert(sorted_desc(s.drop_first()));
        lemma_insert_desc_sorted(s.drop_first(), b);
        lemma_insert_desc_elems(s.drop_first(), b);
        let r = insert_desc(s, b);
        let inner = insert_desc(s.drop_first(), b);
        assert forall|i: int, j: int|
            0 <= i < j < r.len() implies (#[trigger] r[i]).confidence >= (
        #[trigger] r[j]).confidence by {
            if i > 0 {
                assert(r[i] == inner[i - 1] && r[j] == inner[j - 1]);
            } else {
                assert(r[0] == s[0]);
                assert(r[j] == inner[j - 1]);
                if inner[j - 1] == b {
                } else {
                    assert(s.drop_first().contains(inner[j - 1]));
                    let k = choose|k: int|
                        0 <= k < s.drop_first().len() && s.drop_first()[k] == inner[j - 1];
                    assert(s[k + 1] == inner[j - 1]);
                    assert(s[0].confidence >= s[k + 1].confidence);
                }
            }
        }
    } else {
        let r = insert_desc(s, b);
        assert forall|i: int, j: int|
            0 <= i < j < r.len() implies (#[trigger] r[i]).confidence >= (
        #[trigger] r[j]).confidence by {
            if i > 0 {
                assert(r[i] == s[i - 1] && r[j] == s[j - 1]);
            } else {
                assert(r[0] == b && r[j] == s[j - 1]);
                assert(s[0].confidence >= s[j - 1].confidence);
            }
        }
    }
}

/// The sort really sorts: its result is confidence-descending.
pub proof fn lemma_sort_desc_sorted(s: Seq<FaceBox>)
    ensures
        sorted_desc(sort_desc(s)),
    decreases s.len(),
{
    if s.len() > 0 {
        lemma_sort_desc_sorted(s.drop_last());
        lemma_insert_desc_sorted(sort_desc(s.drop_last()), s.last());
    }
}

fn insert_one(v: &mut Vec<FaceBox>, b: FaceBox)
    ensures
        final(v)@ == insert_desc(old(v)@, b),
{
    let mut j: usize = 0;
    while j < v.len() && v[j].confidence >= b.confidence
        invariant
            0 <= j <= v@.len(),
            v@ == old(v)@,
            forall|k: int| 0 <= k < j ==> (#[trigger] v@[k]).confidence >= b.confidence,
        decreases v@.len() - j,
    {
        j = j + 1;
    }
    proof {
        lemma_insert_desc_at(v@, b, j as int);
    }
    v.insert(j, b);
}

/// Where the scan stops is exactly where the stable descending insertion
/// puts the new box.
proof fn lemma_insert_desc_at(s: Seq<FaceBox>, b: FaceBox, j: int)
    requires
        0 <= j <= s.len(),
        forall|k: int| 0 <= k < j ==> (#[trigger] s[k]).confidence >= b.confidence,
        j < s.len() ==> s[j].confidence < b.confidence,
    ensures
        insert_desc(s, b) == s.insert(j, b),
    decreases j,
{
    if j == 0 {
        if s.len() == 0 {
            assert(insert_desc(s, b) =~= s.insert(0, b));
        } else {
            assert(insert_desc(s, b) =~= s.insert(0, b));
        }
    } else {
        lemma_insert_desc_at(s.drop_first(), b, j - 1);
        assert(insert_desc(s, b) == seq![s[0]] + insert_desc(s.drop_first(), b));
        assert(seq![s[0]] + s.drop_first().insert(j - 1, b) =~= s.insert(j, b));
    }
}

/// Sorts the candidates by confidence, descending; boxes of equal confidence
/// keep their original order.
pub fn sort_by_confidence(boxes: &Vec<FaceBox>) -> (out: Vec<FaceBox>)
    ensures
        out@ == sort_desc(boxes@),
{
    let mut out: Vec<FaceBox> = Vec::new();
    let mut i: usize = 0;
    proof {
        assert(boxes@.take(0) =~= Seq::<FaceBox>::empty());
    }
    while i < boxes.len()
        invariant
            i <= boxes@.len(),
            out@ == sort_desc(boxes@.take(i as int)),
        decreases boxes@.len() - i,
    {
        proof {
            assert(boxes@.take(i + 1).drop_last() =~= boxes@.take(i as int));
            assert(boxes@.take(i + 1).last() == boxes@[i as int]);
        }
        let b = boxes[i];
        insert_one(&mut out, b);
        i = i + 1;
    }
    proof {
        assert(boxes@.take(boxes@.len() as int) =~= boxes@);
    }
    out
}

/// One suppression round: the boxes after the head whose IoU with `lead`
/// stays strictly below the threshold.
fn filter_survivors(v: &Vec<FaceBox>, lead: FaceBox, t: i64) -> (out: Vec<FaceBox>)
    requires
        v@.len() >= 1,
        lead.wf(),
        forall|i: int| 0 <= i < v@.len() ==> (#[trigger] v@[i]).wf(),
    ensures
        out@ == keep_low_iou(v@.drop_first(), lead, t),
        forall|i: int| 0 <= i < out@.len() ==> (#[trigger] out@[i]).wf(),
{
    let mut out: Vec<FaceBox> = Vec::new();
    let mut i: usize = 1;
    proof {
        assert(v@.subrange(1, 1) =~= Seq::<FaceBox>::empty());
    }
    while i < v.len()
        invariant
            1 <= i <= v@.len(),
            lead.wf(),
            forall|k: int| 0 <= k < v@.len() ==> (#[trigger] v@[k]).wf(),
            out@ == keep_low_iou(v@.subrange(1, i as int), lead, t),
            forall|k: int| 0 <= k < out@.len() ==> (#[trigger] out@[k]).wf(),
        decreases v@.len() - i,
    {
        proof {
            assert(v@.subrange(1, i + 1).drop_last() =~= v@.subrange(1, i as int));
            assert(v@.subrange(1, i + 1).last() == v@[i as int]);
        }
        let candidate = v[i];
        let overlap = iou(&lead, &candidate);
        if overlap < t {
            out.push(candidate);
        }
        i = i + 1;
    }
    proof {
        assert(v@.subrange(1, v@.len() as int) =~= v@.drop_first());
    }
    out
}

/// Greedy non-maximum suppression: sorts the input by confidence descending
/// (stable) and repeatedly keeps the most confident remaining box, dropping
/// every remaining box whose IoU with it reaches `iou_threshold`. The result
/// is confidence-descending with mutually low overlap; empty input yields
/// empty output.
pub fn suppress(boxes: &Vec<FaceBox>, iou_threshold: i64) -> (out: Vec<FaceBox>)
    requires
        forall|i: int| 0 <= i < boxes@.len() ==> (#[trigger] boxes@[i]).wf(),
    ensures
        out@ == nms_spec(sort_desc(boxes@), iou_threshold),
        sorted_desc(out@),
        forall|i: int, j: int|
            0 <= i < j < out@.len() ==> iou_spec(#[trigger] out@[i], #[trigger] out@[j])
                < iou_threshold,
        forall|i: int| 0 <= i < out@.len() ==> boxes@.contains(#[trigger] out@[i]),
        forall|i: int| 0 <= i < out@.len() ==> (#[trigger] out@[i]).wf(),
{
    proof {
        lemma_sort_desc_sorted(boxes@);
        lemma_nms_sorted(sort_desc(boxes@), iou_threshold);
        lemma_nms_pairwise_low_overlap(sort_desc(boxes@), iou_threshold);
        lemma_nms_elems(sort_desc(boxes@), iou_threshold);
        lemma_sort_desc_elems(boxes@);
        let result = nms_spec(sort_desc(boxes@), iou_threshold);
        assert forall|i: int| 0 <= i < result.len() implies boxes@.contains(
            #[trigger] result[i],
        ) by {
            assert(sort_desc(boxes@).contains(result[i]));
            let j = choose|j: int|
                0 <= j < sort_desc(boxes@).len() && sort_desc(boxes@)[j] == result[i];
            assert(boxes@.contains(sort_desc(boxes@)[j]));
        }
    }
    let ghost target = nms_spec(sort_desc(boxes@), iou_threshold);
    let mut work = sort_by_confidence(boxes);
    proof {
        lemma_sort_desc_elems(boxes@);
        assert forall|i: int| 0 <= i < work@.len() implies (#[trigger] work@[i]).wf() by {
            assert(boxes@.contains(work@[i]));
            let k = choose|k: int| 0 <= k < boxes@.len() && boxes@[k] == work@[i];
        }
        assert(Seq::<FaceBox>::empty() + nms_spec(work@, iou_threshold) =~= target);
    }
    let mut out: Vec<FaceBox> = Vec::new();
    while work.len() > 0
        invariant
            out@ + nms_spec(work@, iou_threshold) == target,
            forall|i: int| 0 <= i < work@.len() ==> (#[trigger] work@[i]).wf(),
            forall|i: int| 0 <= i < out@.len() ==> (#[trigger] out@[i]).wf(),
        decreases work@.len(),
    {
        let lead = work[0];
        out.push(lead);
        proof {
            lemma_keep_low_iou_len(work@.drop_first(), lead, iou_threshold);
            assert(nms_spec(work@, iou_threshold) == seq![lead] + nms_spec(
                keep_low_iou(work@.drop_first(), lead, iou_threshold),
                iou_threshold,
            ));
            assert(out@ + nms_spec(
                keep_low_iou(work@.drop_first(), lead, iou_threshold),
                iou_threshold,
            ) =~= target);
        }
        work = filter_survivors(&work, lead, iou_threshold);
    }
    proof {
        assert(out@ + nms_spec(work@, iou_threshold) =~= out@);
    }
    out
}

/// Sorting emits exactly boxes of the input: anything in the sorted run is
/// contained in the source.
pub proof fn lemma_sort_desc_elems(s: Seq<FaceBox>)
    ensures
        forall|i: int|
            0 <= i < sort_desc(s).len() ==> s.contains(#[trigger] sort_desc(s)[i]),
        sort_desc(s).len() == s.len(),
    decreases s.len(),
{
    if s.len() > 0 {
        lemma_sort_desc_elems(s.drop_last());
        lemma_insert_desc_elems(sort_desc(s.drop_last()), s.last());
        assert forall|i: int| 0 <= i < sort_desc(s).len() implies s.contains(
            #[trigger] sort_desc(s)[i],
        ) by {
            let e = sort_desc(s)[i];
            let prev = sort_desc(s.drop_last());
            assert(prev.contains(e) || e == s.last());
            if e == s.last() {
                assert(s[s.len() - 1] == e);
            } else {
                let j = choose|j: int| 0 <= j < prev.len() && prev[j] == e;
                assert(s.drop_last().contains(e));
                let k = choose|k: int| 0 <= k < s.drop_last().len() && s.drop_last()[k] == e;
                assert(s[k] == e);
            }
        }
    }
}

/// Inserting adds the new box and keeps the run's boxes.
proof fn lemma_insert_desc_elems(s: Seq<FaceBox>, b: FaceBox)
    ensures
        insert_desc(s, b).len() == s.len() + 1,
        forall|i: int|
            0 <= i < insert_desc(s, b).len() ==> (s.contains(#[trigger] insert_desc(s, b)[i])
                || insert_desc(s, b)[i] == b),
    decreases s.len(),
{
    if s.len() > 0 && s[0].confidence >= b.confidence {
        lemma_insert_desc_elems(s.drop_first(), b);
        assert forall|i: int| 0 <= i < insert_desc(s, b).len() implies (s.contains(
            #[trigger] insert_desc(s, b)[i],
        ) || insert_desc(s, b)[i] == b) by {
            let e = insert_desc(s, b)[i];
            if i == 0 {
                assert(s[0] == e);
            } else {
                let inner = insert_desc(s.drop_first(), b);
                assert(e == inner[i - 1]);
                if e != b {
                    assert(s.drop_first().contains(e));
                    let k = choose|k: int|
                        0 <= k < s.drop_first().len() && s.drop_first()[k] == e;
                    assert(s[k + 1] == e);
                }
            }
        }
    } else {
        assert forall|i: int| 0 <= i < insert_desc(s, b).len() implies (s.contains(
            #[trigger] insert_desc(s, b)[i],
        ) || insert_desc(s, b)[i] == b) by {
            if s.len() > 0 && i > 0 {
                assert(insert_desc(s, b)[i] == s[i - 1]);
            }
        }
    }
}

/// Two identical boxes of positive area collapse to one: suppression keeps
/// the first and discards its duplicate at any threshold up to the full IoU.
pub proof fn lemma_duplicate_box_suppressed(b: FaceBox, t: i64)
    requires
        b.wf(),
        area_spec(b) > 0,
        0 < t <= FRAC_SCALE,
    ensures
        nms_spec(sort_desc(seq![b, b]), t) == seq![b],
{
    let s = seq![b, b];
    assert(s.drop_last() =~= seq![b]);
    assert(seq![b].drop_last() =~= Seq::<FaceBox>::empty());
    assert(sort_desc(Seq::<FaceBox>::empty()) == Seq::<FaceBox>::empty());
    assert(insert_desc(Seq::<FaceBox>::empty(), b) =~= seq![b]);
    assert(sort_desc(seq![b]) == seq![b]);
    assert(seq![b].drop_first() =~= Seq::<FaceBox>::empty());
    assert(insert_desc(seq![b], b) =~= seq![b] + insert_desc(Seq::<FaceBox>::empty(), b));
    assert(insert_desc(seq![b], b) =~= seq![b, b]);
    assert(sort_desc(s) == seq![b, b]);
    lemma_iou_self(b);
    assert(seq![b].last() == b);
    assert(!(iou_spec(b, seq![b].last()) < t));
    assert(keep_low_iou(Seq::<FaceBox>::empty(), b, t) == Seq::<FaceBox>::empty());
    assert(keep_low_iou(seq![b], b, t) =~= Seq::<FaceBox>::empty());
    assert(nms_spec(Seq::<FaceBox>::empty(), t) == Seq::<FaceBox>::empty());
    assert(s.drop_first() =~= seq![b]);
    assert(nms_spec(s, t) =~= seq![b]);
}

/// Two disjoint boxes both survive suppression at any positive threshold,
/// and come out in confidence-descending order.
pub proof fn lemma_disjoint_pair_kept(a: FaceBox, b: FaceBox, t: i64)
    requires
        a.wf(),
        b.wf(),
        inter_spec(a, b) == 0,
        0 < t,
    ensures
        a.confidence >= b.confidence ==> nms_spec(sort_desc(seq![a, b]), t) == seq![a, b],
        a.confidence < b.confidence ==> nms_spec(sort_desc(seq![a, b]), t) == seq![b, a],
{
    let s = seq![a, b];
    assert(s.drop_last() =~= seq![a]);
    assert(seq![a].drop_last() =~= Seq::<FaceBox>::empty());
    assert(sort_desc(Seq::<FaceBox>::empty()) == Seq::<FaceBox>::empty());
    assert(insert_desc(Seq::<FaceBox>::empty(), a) =~= seq![a]);
    assert(sort_desc(seq![a]) == seq![a]);
    lemma_iou_symmetric(a, b);
    lemma_iou_disjoint(a, b);
    lemma_iou_disjoint(b, a);
    if a.confidence >= b.confidence {
        assert(seq![a].drop_first() =~= Seq::<FaceBox>::empty());
        assert(insert_desc(seq![a], b) =~= seq![a] + insert_desc(Seq::<FaceBox>::empty(), b));
        assert(insert_desc(seq![a], b) =~= seq![a, b]);
        assert(sort_desc(s) == seq![a, b]);
        lemma_pair_low_iou_nms(a, b, t);
    } else {
        assert(insert_desc(seq![a], b) =~= seq![b, a]);
        assert(sort_desc(s) == seq![b, a]);
        lemma_pair_low_iou_nms(b, a, t);
    }
}

/// Suppression of a two-box list whose boxes overlap strictly below the
/// threshold keeps both, in their order.
proof fn lemma_pair_low_iou_nms(x: FaceBox, y: FaceBox, t: i64)
    requires
        iou_spec(x, y) < t,
    ensures
        nms_spec(seq![x, y], t) == seq![x, y],
{
    let s = seq![x, y];
    assert(s.drop_first() =~= seq![y]);
    assert(seq![y].drop_last() =~= Seq::<FaceBox>::empty());
    assert(keep_low_iou(Seq::<FaceBox>::empty(), x, t) == Seq::<FaceBox>::empty());
    assert(keep_low_iou(seq![y], x, t) =~= seq![y]);
    assert(seq![y].drop_first() =~= Seq::<FaceBox>::empty());
    assert(keep_low_iou(Seq::<FaceBox>::empty(), y, t) == Seq::<FaceBox>::empty());
    assert(nms_spec(Seq::<FaceBox>::empty(), t) == Seq::<FaceBox>::empty());
    assert(nms_spec(seq![y], t) =~= seq![y]);
    assert(nms_spec(s, t) =~= seq![x, y]);
}

} // verus!
