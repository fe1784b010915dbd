use crate::bezier::{curve_in_bounds, BezierCurve};
use crate::geometry::{Point, COORD_LIMIT};
use rayon::iter::{
    IndexedParallelIterator, IntoParallelRefIterator, IntoParallelRefMutIterator, ParallelIterator,
};
use vstd::prelude::*;

verus! {

/// The adjustment the smoothing pass computes for a curve from its immediate
/// predecessor: `adj.0` is the start delta (the curve's start minus the
/// predecessor's end) and `adj.1` the control1 delta (the curve's start plus
/// the predecessor's end tangent, minus the curve's first handle).
pub open spec fn pair_adjustment(prev: BezierCurve, cur: BezierCurve, adj: (Point, Point)) -> bool {
    &&& adj.0.x as int == cur.start.x - prev.end.x
    &&& adj.0.y as int == cur.start.y - prev.end.y
    &&& adj.1.x as int == cur.start.x + (prev.end.x - prev.control2.x) - cur.control1.x
    &&& adj.1.y as int == cur.start.y + (prev.end.y - prev.control2.y) - cur.control1.y
}

/// `res` is `cur` moved by the adjustment `adj`: the start by the first
/// delta, the first handle by the second; the second handle and the end are
/// untouched.
pub open spec fn applied_adjustment(cur: BezierCurve, adj: (Point, Point), res: BezierCurve) -> bool {
    &&& res.start.x as int == cur.start.x + adj.0.x
    &&& res.start.y as int == cur.start.y + adj.0.y
    &&& res.control1.x as int == cur.control1.x + adj.1.x
    &&& res.control1.y as int == cur.control1.y + adj.1.y
    &&& res.control2 == cur.control2
    &&& res.end == cur.end
}

/// `res` is `cur` smoothed against its immediate predecessor `prev`: the new
/// start is the old start reflected off the predecessor's end, the new first
/// handle continues the predecessor's end tangent from the old start, and
/// the second handle and the end are kept.
pub open spec fn smoothed_pair(prev: BezierCurve, cur: BezierCurve, res: BezierCurve) -> bool {
    &&& res.start.x as int == 2 * cur.start.x - prev.end.x
    &&& res.start.y as int == 2 * cur.start.y - prev.end.y
    &&& res.control1.x as int == cur.start.x + (prev.end.x - prev.control2.x)
    &&& res.control1.y as int == cur.start.y + (prev.end.y - prev.control2.y)
    &&& res.control2 == cur.control2
    &&& res.end == cur.end
}

/// Bound on a precomputed adjustment, wide enough for every delta of curves
/// whose control points are in bounds.
pub open spec fn adj_in_bounds(adj: (Point, Point)) -> bool {
    &&& -4 * COORD_LIMIT <= adj.0.x <= 4 * COORD_LIMIT
    &&& -4 * COORD_LIMIT <= adj.0.y <= 4 * COORD_LIMIT
    &&& -4 * COORD_LIMIT <= adj.1.x <= 4 * COORD_LIMIT
    &&& -4 * COORD_LIMIT <= adj.1.y <= 4 * COORD_LIMIT
}

/// The read-only first pass of the smoothing: one adjustment per adjacent
/// pair of curves, all computed from the same frozen snapshot of the spline,
/// before any curve is written.
pub fn compute_adjustments(spline: &Vec<BezierCurve>) -> (adjs: Vec<(Point, Point)>)
    requires
        spline@.len() >= 1,
        forall|k: int| 0 <= k < spline@.len() ==> curve_in_bounds(#[trigger] spline@[k]),
    ensures
        adjs@.len() == spline@.len() - 1,
        forall|k: int|
            0 <= k < adjs@.len() ==> pair_adjustment(
                spline@[k],
                spline@[k + 1],
                #[trigger] adjs@[k],
            ),
        forall|k: int| 0 <= k < adjs@.len() ==> adj_in_bounds(#[trigger] adjs@[k]),
{
    let mut adjs: Vec<(Point, Point)> = Vec::new();
    let mut i: usize = 1;
    while i < spline.len()
        invariant
            1 <= i <= spline@.len(),
            adjs@.len() == i - 1,
            forall|k: int| 0 <= k < spline@.len() ==> curve_in_bounds(#[trigger] spline@[k]),
            forall|k: int|
                0 <= k < adjs@.len() ==> pair_adjustment(
                    spline@[k],
                    spline@[k + 1],
                    #[trigger] adjs@[k],
                ),
            forall|k: int| 0 <= k < adjs@.len() ==> adj_in_bounds(#[trigger] adjs@[k]),
        decreases spline@.len() - i,
    {
        let prev = &spline[i - 1];
        let cur = &spline[i];
        let start_delta = Point { x: cur.start.x - prev.end.x, y: cur.start.y - prev.end.y };
        let control1_delta = Point {
            x: cur.start.x + (prev.end.x - prev.control2.x) - cur.control1.x,
            y: cur.start.y + (prev.end.y - prev.control2.y) - cur.control1.y,
        };
        adjs.push((start_delta, control1_delta));
        i += 1;
    }
    adjs
}

/// Applies one adjustment to one curve; the apply pass calls this once per
/// curve after the first.
fn apply_adjustment(curve: &mut BezierCurve, adj: &(Point, Point))
    requires
        curve_in_bounds(*old(curve)),
        adj_in_bounds(*adj),
    ensures
        applied_adjustment(*old(curve), *adj, *final(curve)),
{
    curve.start.x = curve.start.x + adj.0.x;
    curve.start.y = curve.start.y + adj.0.y;
    curve.control1.x = curve.control1.x + adj.1.x;
    curve.control1.y = curve.control1.y + adj.1.y;
}

/// Relies on rayon's indexed parallel iteration: `par_iter_mut().skip(1)`
/// zipped with `adjs.par_iter()` pairs each curve after the first with the
/// adjustment at its own index, visits every pair exactly once, and runs
/// `apply_adjustment` on disjoint curves; the list's length and its first
/// curve are untouched.
#[verifier::external_body]
fn apply_adjustments_par(spline: &mut Vec<BezierCurve>, adjs: &Vec<(Point, Point)>)
    requires
        adjs@.len() + 1 == old(spline)@.len(),
        forall|k: int| 0 <= k < old(spline)@.len() ==> curve_in_bounds(#[trigger] old(spline)@[k]),
        forall|k: int| 0 <= k < adjs@.len() ==> adj_in_bounds(#[trigger] adjs@[k]),
    ensures
        final(spline)@.len() == old(spline)@.len(),
        final(spline)@[0] == old(spline)@[0],
        forall|k: int|
            1 <= k < old(spline)@.len() ==> applied_adjustment(
                old(spline)@[k],
                adjs@[k - 1],
                #[trigger] final(spline)@[k],
            ),
{
    spline.par_iter_mut().skip(1).zip(adjs.par_iter()).for_each(
        |(curve, adj): (&mut BezierCurve, &(Point, Point))| {
            apply_adjustment(curve, adj);
        },
    );
}

/// The cross-segment smoothing pass. All adjustments are computed in one
/// read-only pass over the frozen curve list, then applied in a second pass
/// that writes disjoint curves: the first curve is never modified, and every
/// later curve's new start and first handle are functions of its own and its
/// immediate predecessor's original control points only.
pub fn smooth_spline(spline: &mut Vec<BezierCurve>)
    requires
        forall|k: int| 0 <= k < old(spline)@.len() ==> curve_in_bounds(#[trigger] old(spline)@[k]),
    ensures
        final(spline)@.len() == old(spline)@.len(),
        old(spline)@.len() >= 1 ==> final(spline)@[0] == old(spline)@[0],
        old(spline)@.len() <= 1 ==> final(spline)@ == old(spline)@,
        forall|k: int|
            1 <= k < old(spline)@.len() ==> smoothed_pair(
                old(spline)@[k - 1],
                old(spline)@[k],
                #[trigger] final(spline)@[k],
            ),
{
    if spline.len() <= 1 {
        return ;
    }
    let adjs = compute_adjustments(spline);
    apply_adjustments_par(spline, &adjs);
}

/// `cur` is already continuous with its predecessor: it starts at `prev`'s
/// end and its first handle continues `prev`'s end tangent from that start.
pub open spec fn aligned(prev: BezierCurve, cur: BezierCurve) -> bool {
    &&& cur.start == prev.end
    &&& cur.control1.x as int == cur.start.x + (prev.end.x - prev.control2.x)
    &&& cur.control1.y as int == cur.start.y + (prev.end.y - prev.control2.y)
}

/// Smoothing idempotence: a curve that already starts at its predecessor's
/// end, with a first handle that already continues the predecessor's end
/// tangent from that start, is left exactly where it was by the smoothing
/// adjustment.
pub proof fn lemma_smoothing_idempotent(prev: BezierCurve, cur: BezierCurve, res: BezierCurve)
    requires
        aligned(prev, cur),
        smoothed_pair(prev, cur, res),
    ensures
        res == cur,
{
    assert(res.start.x == cur.start.x);
    assert(res.start.y == cur.start.y);
    assert(res.control1.x == cur.control1.x);
    assert(res.control1.y == cur.control1.y);
}

/// Smoothing idempotence over a whole spline: when every curve after the
/// first is already continuous with its predecessor, the pass returns the
/// spline exactly as it was.
pub proof fn lemma_smoothing_idempotent_spline(before: Seq<BezierCurve>, after: Seq<BezierCurve>)
    requires
        after.len() == before.len(),
        before.len() >= 1 ==> after[0] == before[0],
        forall|k: int|
            1 <= k < before.len() ==> smoothed_pair(before[k - 1], before[k], #[trigger] after[k]),
        forall|k: int| 1 <= k < before.len() ==> aligned(before[k - 1], #[trigger] before[k]),
    ensures
        after == before,
{
    assert forall|k: int| 0 <= k < before.len() implies after[k] == before[k] by {
        if k >= 1 {
            lemma_smoothing_idempotent(before[k - 1], before[k], after[k]);
        }
    }
    assert(after =~= before);
}

/// No cascading: the smoothing pass writes only a curve's start and first
/// handle, while a successor's adjustment reads only its predecessor's end
/// and second handle. So the adjustment of a later curve, stated over its
/// predecessor's original control points, coincides with what the
/// predecessor's already-adjusted value gives: adjustments cannot propagate
/// down the spline.
pub proof fn lemma_no_cascade(
    c0: BezierCurve,
    c1: BezierCurve,
    c2: BezierCurve,
    s1: BezierCurve,
    s2: BezierCurve,
    t2: BezierCurve,
)
    requires
        smoothed_pair(c0, c1, s1),
        smoothed_pair(c1, c2, s2),
        smoothed_pair(s1, c2, t2),
    ensures
        t2 == s2,
{
    assert(s1.end == c1.end);
    assert(s1.control2 == c1.control2);
    assert(t2.start.x == s2.start.x);
    assert(t2.start.y == s2.start.y);
    assert(t2.control1.x == s2.control1.x);
    assert(t2.control1.y == s2.control1.y);
}

} // verus!
