use crate::bezier::BezierCurve;
use vstd::prelude::*;

verus! {

/// The finished product of one stroke: an ordered sequence of cubic Bezier
/// curves, drawn start to end.
#[derive(Clone)]
pub struct Spline {
    pub bez_spline: Vec<BezierCurve>,
}

impl Spline {
    pub fn new() -> (s: Spline)
        ensures
            s.bez_spline@ == Seq::<BezierCurve>::empty(),
    {
        Spline { bez_spline: Vec::new() }
    }

    pub fn curve_count(&self) -> (n: usize)
        ensures
            n == self.bez_spline@.len(),
    {
        self.bez_spline.len()
    }
}

} // verus!
