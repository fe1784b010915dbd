use crate::geometry::{dist_sq, distance_squared, in_bounds, Point, COORD_LIMIT};
use vstd::prelude::*;

verus! {

/// The runs the segmenter produces for the samples `ps` and squared
/// threshold `tsq`, scanning from index `i` with the current anchor at index
/// `anchor`: a sample whose squared distance from the anchor exceeds `tsq`
/// closes the run from the anchor through that sample and becomes the new
/// anchor; the final run spans from the last anchor to the end of the
/// samples, however short it is.
pub open spec fn runs_from(ps: Seq<Point>, tsq: int, anchor: int, i: int) -> Seq<Seq<Point>>
    decreases ps.len() - i,
{
    if i >= ps.len() {
        seq![ps.subrange(anchor, ps.len() as int)]
    } else if dist_sq(ps[anchor], ps[i]) > tsq {
        seq![ps.subrange(anchor, i + 1)] + runs_from(ps, tsq, i, i + 1)
    } else {
        runs_from(ps, tsq, anchor, i + 1)
    }
}

/// The complete segmentation of a sample sequence: the anchor starts at the
/// first sample and the scan at the second.
pub open spec fn segmented(ps: Seq<Point>, tsq: int) -> Seq<Seq<Point>> {
    runs_from(ps, tsq, 0, 1)
}

/// Concatenation of a list of runs, each with its first point removed.
pub open spec fn tail_concat(rs: Seq<Seq<Point>>) -> Seq<Point>
    decreases rs.len(),
{
    if rs.len() == 0 {
        Seq::empty()
    } else {
        rs.first().drop_first() + tail_concat(rs.drop_first())
    }
}

/// All runs concatenated in order, removing one duplicate point at each
/// shared boundary: the first run whole, every later run without its first
/// point.
pub open spec fn glue_runs(rs: Seq<Seq<Point>>) -> Seq<Point> {
    if rs.len() == 0 {
        Seq::empty()
    } else {
        rs.first() + tail_concat(rs.drop_first())
    }
}

/// The views of a list of runs.
pub open spec fn views_of(runs: Seq<Vec<Point>>) -> Seq<Seq<Point>> {
    runs.map_values(|run: Vec<Point>| run@)
}

proof fn lemma_runs_from_cover(ps: Seq<Point>, tsq: int, anchor: int, i: int)
    requires
        0 <= anchor < ps.len(),
        anchor < i <= ps.len(),
    ensures
        ({
            let rs = runs_from(ps, tsq, anchor, i);
            &&& rs.len() >= 1
            &&& forall|k: int| 0 <= k < rs.len() ==> #[trigger] rs[k].len() >= 1
            &&& rs.first().first() == ps[anchor]
            &&& rs.last().last() == ps[ps.len() - 1]
            &&& forall|k: int| 0 <= k < rs.len() - 1 ==> #[trigger] rs[k + 1].first() == rs[k].last()
            &&& glue_runs(rs) == ps.subrange(anchor, ps.len() as int)
        }),
    decreases ps.len() - i,
{
    let rs = runs_from(ps, tsq, anchor, i);
    if i >= ps.len() {
        let run = ps.subrange(anchor, ps.len() as int);
        assert(rs =~= seq![run]);
        assert(run.len() >= 1);
        assert(rs.drop_first() =~= Seq::<Seq<Point>>::empty());
        assert(tail_concat(Seq::<Seq<Point>>::empty()) == Seq::<Point>::empty());
        assert(glue_runs(rs) =~= run);
    } else if dist_sq(ps[anchor], ps[i]) > tsq {
        let head = ps.subrange(anchor, i + 1);
        let rest = runs_from(ps, tsq, i, i + 1);
        lemma_runs_from_cover(ps, tsq, i, i + 1);
        assert(rs == seq![head] + rest);
        assert(rs.drop_first() =~= rest);
        assert(rs.first() == head);
        assert(head.len() >= 2);
        assert forall|k: int| 0 <= k < rs.len() implies #[trigger] rs[k].len() >= 1 by {
            if k > 0 {
                assert(rs[k] == rest[k - 1]);
            }
        }
        assert forall|k: int| 0 <= k < rs.len() - 1 implies #[trigger] rs[k + 1].first()
            == rs[k].last() by {
            if k == 0 {
                assert(rs[1] == rest[0]);
                assert(rest.first().first() == ps[i]);
                assert(head.last() == ps[i]);
            } else {
                assert(rs[k + 1] == rest[k]);
                assert(rs[k] == rest[k - 1]);
                assert(rest[(k - 1) + 1].first() == rest[k - 1].last());
            }
        }
        assert(rs.last() == rest.last());
        // The glue of the rest is the suffix of the samples from the new
        // anchor on; removing that run's first point leaves the suffix from
        // one past the new anchor.
        let tail_of_rest = tail_concat(rest.drop_first());
        assert(tail_concat(rest) == rest.first().drop_first() + tail_of_rest);
        assert(glue_runs(rest) == rest.first() + tail_of_rest);
        assert(rest.first().len() >= 1);
        assert((rest.first() + tail_of_rest).drop_first() =~= rest.first().drop_first()
            + tail_of_rest);
        assert(tail_concat(rest) == glue_runs(rest).drop_first());
        assert(glue_runs(rest).drop_first() =~= ps.subrange(i + 1, ps.len() as int));
        assert(glue_runs(rs) == head + tail_concat(rest));
        assert(head + ps.subrange(i + 1, ps.len() as int) =~= ps.subrange(
            anchor,
            ps.len() as int,
        ));
    } else {
        lemma_runs_from_cover(ps, tsq, anchor, i + 1);
        assert(rs == runs_from(ps, tsq, anchor, i + 1));
    }
}

/// Segmentation coverage: concatenating all runs' point lists, removing one
/// duplicate at each shared boundary, reproduces the original samples in
/// order, for every sample sequence and every threshold. Moreover every run
/// is nonempty, the first run starts at the first sample, the last run ends
/// at the last sample, and each run begins with the point that ends its
/// predecessor.
pub proof fn lemma_segmentation_coverage(ps: Seq<Point>, tsq: int)
    requires
        ps.len() >= 1,
    ensures
        ({
            let rs = segmented(ps, tsq);
            &&& rs.len() >= 1
            &&& forall|k: int| 0 <= k < rs.len() ==> #[trigger] rs[k].len() >= 1
            &&& rs.first().first() == ps[0]
            &&& rs.last().last() == ps[ps.len() - 1]
            &&& forall|k: int| 0 <= k < rs.len() - 1 ==> #[trigger] rs[k + 1].first() == rs[k].last()
            &&& glue_runs(rs) == ps
        }),
{
    lemma_runs_from_cover(ps, tsq, 0, 1);
    assert(ps.subrange(0, ps.len() as int) =~= ps);
}

fn copy_range(points: &Vec<Point>, from: usize, to: usize) -> (run: Vec<Point>)
    requires
        from <= to <= points@.len(),
    ensures
        run@ == points@.subrange(from as int, to as int),
{
    let mut run: Vec<Point> = Vec::new();
    let mut j: usize = from;
    while j < to
        invariant
            from <= j <= to <= points@.len(),
            run@ == points@.subrange(from as int, j as int),
        decreases to - j,
    {
        run.push(points[j]);
        proof {
            assert(points@.subrange(from as int, j as int + 1) =~= points@.subrange(
                from as int,
                j as int,
            ).push(points@[j as int]));
        }
        j += 1;
    }
    run
}

/// Partitions the samples into contiguous runs bounded by the chord-distance
/// threshold `size`: a run closes at the first sample farther than `size`
/// from the run's anchor (its first point), and that sample anchors the next
/// run, so consecutive runs share exactly one boundary point. The final run
/// reaches the end of the samples however short it is; if no sample ever
/// strays, the single run is the whole input.
pub fn segment_points(points: &Vec<Point>, size: usize) -> (runs: Vec<Vec<Point>>)
    requires
        points@.len() >= 1,
        1 <= size,
        size as int <= COORD_LIMIT as int,
        forall|j: int| 0 <= j < points@.len() ==> in_bounds(#[trigger] points@[j]),
    ensures
        views_of(runs@) == segmented(points@, (size as int) * (size as int)),
        runs@.len() >= 1,
{
    let ghost tsq: int = (size as int) * (size as int);
    proof {
        crate::geometry::lemma_square_le(size as int, COORD_LIMIT as int);
    }
    let threshold_sq: i128 = (size as i128) * (size as i128);
    let mut runs: Vec<Vec<Point>> = Vec::new();
    let mut last_i: usize = 0;
    let mut anchor: Point = points[0];
    let mut i: usize = 1;
    proof {
        assert(views_of(runs@) + runs_from(points@, tsq, 0, 1) =~= segmented(points@, tsq));
    }
    while i < points.len()
        invariant
            1 <= i <= points@.len(),
            0 <= last_i < i,
            last_i < points@.len(),
            anchor == points@[last_i as int],
            forall|j: int| 0 <= j < points@.len() ==> in_bounds(#[trigger] points@[j]),
            threshold_sq as int == tsq,
            segmented(points@, tsq) == views_of(runs@) + runs_from(
                points@,
                tsq,
                last_i as int,
                i as int,
            ),
        decreases points@.len() - i,
    {
        let d = distance_squared(&anchor, &points[i]);
        if d > threshold_sq {
            let run = copy_range(points, last_i, i + 1);
            proof {
                assert(runs_from(points@, tsq, last_i as int, i as int) == seq![
                    points@.subrange(last_i as int, i as int + 1),
                ] + runs_from(points@, tsq, i as int, i as int + 1));
                assert(views_of(runs@.push(run)) =~= views_of(runs@).push(run@));
                assert(views_of(runs@).push(run@) + runs_from(points@, tsq, i as int, i as int + 1)
                    =~= views_of(runs@) + (seq![run@] + runs_from(
                    points@,
                    tsq,
                    i as int,
                    i as int + 1,
                )));
            }
            runs.push(run);
            anchor = points[i];
            last_i = i;
        } else {
            proof {
                assert(runs_from(points@, tsq, last_i as int, i as int) == runs_from(
                    points@,
                    tsq,
                    last_i as int,
                    i as int + 1,
                ));
            }
        }
        i += 1;
    }
    let run = copy_range(points, last_i, points.len());
    proof {
        assert(runs_from(points@, tsq, last_i as int, i as int) == seq![
            points@.subrange(last_i as int, points@.len() as int),
        ]);
        assert(views_of(runs@.push(run)) =~= views_of(runs@).push(run@));
        assert(views_of(runs@).push(run@) =~= views_of(runs@) + seq![run@]);
    }
    runs.push(run);
    proof {
        lemma_segmentation_coverage(points@, tsq);
    }
    runs
}

} // verus!
