use strokefit::bezier::BezierCurve;
use strokefit::geometry::Point;
use strokefit::points::Points;
use strokefit::smooth::{compute_adjustments, smooth_spline};
use strokefit::spline::Spline;

fn pt(x: i64, y: i64) -> Point {
    Point { x, y }
}

fn curve(start: Point, control1: Point, control2: Point, end: Point) -> BezierCurve {
    BezierCurve { start, control1, control2, end }
}

#[test]
fn smoothing_example_deltas() {
    let previous = curve(pt(0, 0), pt(2, 2), pt(8, 8), pt(10, 10));
    let current = curve(pt(11, 11), pt(12, 12), pt(20, 20), pt(30, 30));
    let adjs = compute_adjustments(&vec![previous, current]);
    assert_eq!(adjs.len(), 1);
    // start delta = current.start - previous.end
    assert_eq!(adjs[0].0, pt(1, 1));
    // control1 delta = current.start + (previous.end - previous.control2) - current.control1
    assert_eq!(adjs[0].1, pt(1, 1));
}

#[test]
fn smoothing_example_applied() {
    let previous = curve(pt(0, 0), pt(2, 2), pt(8, 8), pt(10, 10));
    let current = curve(pt(11, 11), pt(12, 12), pt(20, 20), pt(30, 30));
    let mut spline = vec![previous, current];
    smooth_spline(&mut spline);
    // The first curve is never modified.
    assert_eq!(spline[0], previous);
    // New start = 2 * current.start - previous.end; note it is not
    // previous.end unless the gap was already zero.
    assert_eq!(spline[1].start, pt(12, 12));
    // New control1 = current.start + previous tangent.
    assert_eq!(spline[1].control1, pt(13, 13));
    // The second handle and the end are untouched.
    assert_eq!(spline[1].control2, current.control2);
    assert_eq!(spline[1].end, current.end);
}

#[test]
fn smoothing_already_continuous_pair_is_unchanged() {
    let previous = curve(pt(0, 0), pt(2, 2), pt(8, 8), pt(10, 10));
    // Starts exactly at previous.end, control1 continues the end tangent
    // (10,10) + (2,2) = (12,12).
    let current = curve(pt(10, 10), pt(12, 12), pt(20, 20), pt(30, 30));
    let mut spline = vec![previous, current];
    smooth_spline(&mut spline);
    assert_eq!(spline[0], previous);
    assert_eq!(spline[1], current);
}

#[test]
fn smoothing_single_curve_is_unchanged() {
    let only = curve(pt(0, 0), pt(1, 1), pt(2, 2), pt(3, 3));
    let mut spline = vec![only];
    smooth_spline(&mut spline);
    assert_eq!(spline, vec![only]);
}

#[test]
fn smoothing_empty_spline_is_unchanged() {
    let mut spline: Vec<BezierCurve> = Vec::new();
    smooth_spline(&mut spline);
    assert!(spline.is_empty());
}

#[test]
fn smoothing_uses_predecessors_original_control_points() {
    let c0 = curve(pt(0, 0), pt(1, 1), pt(8, 8), pt(10, 10));
    let c1 = curve(pt(11, 11), pt(12, 12), pt(18, 18), pt(20, 20));
    let c2 = curve(pt(23, 23), pt(26, 26), pt(28, 28), pt(30, 30));
    let mut spline = vec![c0, c1, c2];
    smooth_spline(&mut spline);
    // Curve 1 was itself adjusted...
    assert_ne!(spline[1], c1);
    // ...but curve 2's adjustment is a function of curve 1's original end
    // and second handle: start = 2 * c2.start - c1.end,
    // control1 = c2.start + (c1.end - c1.control2).
    assert_eq!(spline[2].start, pt(26, 26));
    assert_eq!(spline[2].control1, pt(25, 25));
    assert_eq!(spline[2].control2, c2.control2);
    assert_eq!(spline[2].end, c2.end);
    // The pass never moves any curve's end or second handle, which is why
    // reading the adjusted predecessor would give the same result.
    assert_eq!(spline[1].end, c1.end);
    assert_eq!(spline[1].control2, c1.control2);
}

#[test]
fn points_sequence_appends_in_order() {
    let mut points = Points::new();
    assert_eq!(points.len(), 0);
    points.push(pt(1, 2));
    points.push(pt(3, 4));
    assert_eq!(points.len(), 2);
    assert_eq!(points.points, vec![pt(1, 2), pt(3, 4)]);
}

#[test]
fn spline_starts_empty() {
    let spline = Spline::new();
    assert_eq!(spline.curve_count(), 0);
    assert!(spline.bez_spline.is_empty());
}

#[test]
fn smoothing_handles_extreme_coordinates() {
    let limit = strokefit::geometry::COORD_LIMIT;
    let previous = curve(
        pt(-limit, -limit),
        pt(-limit, -limit),
        pt(limit, limit),
        pt(-limit, -limit),
    );
    let current = curve(pt(limit, limit), pt(-limit, -limit), pt(limit, limit), pt(limit, limit));
    let mut spline = vec![previous, current];
    smooth_spline(&mut spline);
    // start = 2 * limit - (-limit); control1 = limit + (-limit - limit).
    assert_eq!(spline[1].start, pt(3 * limit, 3 * limit));
    assert_eq!(spline[1].control1, pt(-limit, -limit));
}
