use crate::geometry::{in_bounds, Point};
use vstd::prelude::*;

verus! {

/// One cubic Bezier curve: a start point, two control handles, an end point.
#[derive(Clone, Copy, PartialEq, Eq, Structural, Debug)]
pub struct BezierCurve {
    pub start: Point,
    pub control1: Point,
    pub control2: Point,
    pub end: Point,
}

pub open spec fn curve_in_bounds(c: BezierCurve) -> bool {
    &&& in_bounds(c.start)
    &&& in_bounds(c.control1)
    &&& in_bounds(c.control2)
    &&& in_bounds(c.end)
}

} // verus!
