use crate::bezier::BezierCurve;
use crate::geometry::Point;
use vstd::prelude::*;

verus! {

/// How the normal-equations matrix of a least-squares fit is to be resolved.
/// The fitter never fails hard: when the good options run out it keeps the
/// matrix as it is, trading fit quality for availability.
#[derive(Clone, Copy, PartialEq, Eq, Structural, Debug)]
pub enum SolveStrategy {
    /// The matrix is invertible and well conditioned: take its ordinary inverse.
    Inverse,
    /// Take the Moore-Penrose pseudo-inverse, which is defined even for a
    /// singular matrix.
    PseudoInverse,
    /// Last resort: leave the matrix uninverted.
    Unsolved,
}

/// Whether a strategy can actually be carried out, given which of the two
/// inversions succeeded. Giving up is always available.
pub open spec fn strategy_available(s: SolveStrategy, inverse_ok: bool, pseudo_ok: bool) -> bool {
    match s {
        SolveStrategy::Inverse => inverse_ok,
        SolveStrategy::PseudoInverse => pseudo_ok,
        SolveStrategy::Unsolved => true,
    }
}

/// The order in which the strategies are tried. A nearly singular matrix
/// (determinant magnitude under the fitter's epsilon) skips the ordinary
/// inverse and goes straight to the pseudo-inverse.
pub open spec fn spec_strategy_order(det_is_small: bool) -> Seq<SolveStrategy> {
    if det_is_small {
        seq![SolveStrategy::PseudoInverse, SolveStrategy::Unsolved]
    } else {
        seq![SolveStrategy::Inverse, SolveStrategy::PseudoInverse, SolveStrategy::Unsolved]
    }
}

/// The first strategy in `order` that is available.
pub open spec fn first_available(order: Seq<SolveStrategy>, inverse_ok: bool, pseudo_ok: bool) -> SolveStrategy
    decreases order.len(),
{
    if order.len() == 0 {
        SolveStrategy::Unsolved
    } else if strategy_available(order.first(), inverse_ok, pseudo_ok) {
        order.first()
    } else {
        first_available(order.drop_first(), inverse_ok, pseudo_ok)
    }
}

/// The ordered list of inversion strategies the fitter walks through.
pub fn strategy_order(det_is_small: bool) -> (order: Vec<SolveStrategy>)
    ensures
        order@ == spec_strategy_order(det_is_small),
        order@.len() >= 1,
        order@.last() == SolveStrategy::Unsolved,
{
    let mut order: Vec<SolveStrategy> = Vec::new();
    if !det_is_small {
        order.push(SolveStrategy::Inverse);
    }
    order.push(SolveStrategy::PseudoInverse);
    order.push(SolveStrategy::Unsolved);
    proof {
        assert(order@ =~= spec_strategy_order(det_is_small));
    }
    order
}

fn is_available(s: SolveStrategy, inverse_ok: bool, pseudo_ok: bool) -> (r: bool)
    ensures
        r == strategy_available(s, inverse_ok, pseudo_ok),
{
    match s {
        SolveStrategy::Inverse => inverse_ok,
        SolveStrategy::PseudoInverse => pseudo_ok,
        SolveStrategy::Unsolved => true,
    }
}

/// Walks the strategy order and picks the first strategy that is available:
/// a well-conditioned matrix is inverted; a nearly singular one, or one whose
/// ordinary inversion failed, takes the pseudo-inverse; when even that fails
/// the matrix is left uninverted.
pub fn select_strategy(det_is_small: bool, inverse_ok: bool, pseudo_ok: bool) -> (s: SolveStrategy)
    ensures
        s == first_available(spec_strategy_order(det_is_small), inverse_ok, pseudo_ok),
        strategy_available(s, inverse_ok, pseudo_ok),
        !det_is_small && inverse_ok ==> s == SolveStrategy::Inverse,
        !det_is_small && !inverse_ok && pseudo_ok ==> s == SolveStrategy::PseudoInverse,
        det_is_small && pseudo_ok ==> s == SolveStrategy::PseudoInverse,
        !pseudo_ok && (det_is_small || !inverse_ok) ==> s == SolveStrategy::Unsolved,
{
    proof {
        reveal_with_fuel(first_available, 4);
    }
    let order = strategy_order(det_is_small);
    let mut i: usize = 0;
    while i < order.len()
        invariant
            0 <= i <= order@.len(),
            order@ == spec_strategy_order(det_is_small),
            order@.last() == SolveStrategy::Unsolved,
            forall|j: int|
                0 <= j < i ==> !strategy_available(#[trigger] order@[j], inverse_ok, pseudo_ok),
            first_available(order@.skip(i as int), inverse_ok, pseudo_ok) == first_available(
                order@,
                inverse_ok,
                pseudo_ok,
            ),
        decreases order@.len() - i,
    {
        let s = order[i];
        if is_available(s, inverse_ok, pseudo_ok) {
            proof {
                assert(order@.skip(i as int).first() == s);
            }
            return s;
        }
        proof {
            assert(order@.skip(i as int).drop_first() =~= order@.skip(i as int + 1));
        }
        i += 1;
    }
    proof {
        assert(strategy_available(order@[order@.len() - 1], inverse_ok, pseudo_ok));
        assert(false);
    }
    SolveStrategy::Unsolved
}

/// True exactly when every sample of the run coincides with the first: the
/// run has zero arc length.
pub fn run_is_degenerate(points: &Vec<Point>) -> (r: bool)
    requires
        points@.len() >= 1,
    ensures
        r == (forall|j: int| 0 <= j < points@.len() ==> #[trigger] points@[j] == points@[0]),
{
    let first = points[0];
    let mut i: usize = 1;
    while i < points.len()
        invariant
            1 <= i <= points@.len(),
            first == points@[0],
            forall|j: int| 0 <= j < i ==> #[trigger] points@[j] == points@[0],
        decreases points@.len() - i,
    {
        if !(points[i] == first) {
            return false;
        }
        i += 1;
    }
    true
}

/// The degenerate special case of the fitter. A run whose points all coincide
/// has zero total arc length, so the arc-length parameterization would divide
/// by zero; such a run is fit directly to the coincident point replicated as
/// all four control points. Any other run is left to the least-squares fit.
pub fn degenerate_fit(points: &Vec<Point>) -> (r: Option<BezierCurve>)
    requires
        points@.len() >= 1,
    ensures
        r is Some == (forall|j: int| 0 <= j < points@.len() ==> #[trigger] points@[j] == points@[0]),
        r matches Some(c) ==> c == (BezierCurve {
            start: points@[0],
            control1: points@[0],
            control2: points@[0],
            end: points@[0],
        }),
{
    if run_is_degenerate(points) {
        let p = points[0];
        Some(BezierCurve { start: p, control1: p, control2: p, end: p })
    } else {
        None
    }
}

} // verus!
