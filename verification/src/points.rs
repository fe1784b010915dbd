use crate::geometry::Point;
use vstd::prelude::*;

verus! {

/// The samples of one stroke, in the order they were captured. The sequence
/// is append-only: it grows while the stroke is being drawn and is discarded
/// when the stroke ends.
#[derive(Clone)]
pub struct Points {
    pub points: Vec<Point>,
}

impl Points {
    pub fn new() -> (s: Points)
        ensures
            s.points@ == Seq::<Point>::empty(),
    {
        Points { points: Vec::new() }
    }

    /// Appends one freshly captured sample; earlier samples are never moved
    /// or dropped.
    pub fn push(&mut self, p: Point)
        ensures
            final(self).points@ == old(self).points@.push(p),
    {
        self.points.push(p);
    }

    pub fn len(&self) -> (n: usize)
        ensures
            n == self.points@.len(),
    {
        self.points.len()
    }
}

} // verus!
