use vstd::prelude::*;

verus! {

/// Largest coordinate magnitude the library accepts. Generous enough for
/// screen positions scaled to fixed point, and small enough that every
/// intermediate of the segmentation and smoothing arithmetic fits its
/// machine integer.
pub const COORD_LIMIT: i64 = 0x100_0000_0000;

/// One sample of a pointer trace, and likewise one Bezier control point,
/// in fixed-point plane coordinates.
#[derive(Clone, Copy, PartialEq, Eq, Structural, Debug)]
pub struct Point {
    pub x: i64,
    pub y: i64,
}

pub open spec fn in_bounds(p: Point) -> bool {
    &&& -COORD_LIMIT <= p.x <= COORD_LIMIT
    &&& -COORD_LIMIT <= p.y <= COORD_LIMIT
}

/// Squared Euclidean distance between two points, over the mathematical
/// integers.
pub open spec fn dist_sq(p: Point, q: Point) -> int {
    (p.x - q.x) * (p.x - q.x) + (p.y - q.y) * (p.y - q.y)
}

pub(crate) proof fn lemma_square_le(a: int, b: int)
    requires
        -b <= a <= b,
        0 <= b,
    ensures
        0 <= a * a <= b * b,
{
    assert(0 <= a * a <= b * b) by (nonlinear_arith)
        requires
            -b <= a <= b,
            0 <= b,
    ;
}

/// Squared Euclidean distance; exact, so comparing it against a squared
/// threshold decides exactly whether the true distance exceeds the threshold.
pub fn distance_squared(p: &Point, q: &Point) -> (d: i128)
    requires
        in_bounds(*p),
        in_bounds(*q),
    ensures
        d as int == dist_sq(*p, *q),
        0 <= d,
{
    let dx: i128 = p.x as i128 - q.x as i128;
    let dy: i128 = p.y as i128 - q.y as i128;
    proof {
        lemma_square_le(dx as int, 2 * COORD_LIMIT as int);
        lemma_square_le(dy as int, 2 * COORD_LIMIT as int);
    }
    dx * dx + dy * dy
}

} // verus!
