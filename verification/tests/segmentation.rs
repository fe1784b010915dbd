use strokefit::geometry::Point;
use strokefit::segment::segment_points;

fn pt(x: i64, y: i64) -> Point {
    Point { x, y }
}

#[test]
fn seg_example_two_runs() {
    let points = vec![pt(0, 0), pt(0, 50), pt(0, 160), pt(0, 170)];
    let runs = segment_points(&points, 100);
    assert_eq!(runs.len(), 2);
    assert_eq!(runs[0], vec![pt(0, 0), pt(0, 50), pt(0, 160)]);
    assert_eq!(runs[1], vec![pt(0, 160), pt(0, 170)]);
}

#[test]
fn seg_no_split_whole_input() {
    let points = vec![pt(0, 0), pt(3, 4), pt(6, 8), pt(9, 12)];
    let runs = segment_points(&points, 100);
    assert_eq!(runs.len(), 1);
    assert_eq!(runs[0], points);
}

#[test]
fn seg_single_point() {
    let points = vec![pt(7, -3)];
    let runs = segment_points(&points, 100);
    assert_eq!(runs.len(), 1);
    assert_eq!(runs[0], points);
}

#[test]
fn seg_distance_exactly_at_threshold_does_not_split() {
    let points = vec![pt(0, 0), pt(0, 100)];
    let runs = segment_points(&points, 100);
    assert_eq!(runs.len(), 1);
    assert_eq!(runs[0], points);
}

#[test]
fn seg_split_at_last_sample_leaves_single_point_run() {
    let points = vec![pt(0, 0), pt(0, 200)];
    let runs = segment_points(&points, 100);
    assert_eq!(runs.len(), 2);
    assert_eq!(runs[0], vec![pt(0, 0), pt(0, 200)]);
    assert_eq!(runs[1], vec![pt(0, 200)]);
}

#[test]
fn seg_distance_measured_from_anchor_not_previous_point() {
    // Each step is short, but the drift from the anchor adds up: the split
    // must come from the anchor distance, not the step distance.
    let points = vec![pt(0, 0), pt(0, 60), pt(0, 120), pt(0, 130)];
    let runs = segment_points(&points, 100);
    assert_eq!(runs.len(), 2);
    assert_eq!(runs[0], vec![pt(0, 0), pt(0, 60), pt(0, 120)]);
    assert_eq!(runs[1], vec![pt(0, 120), pt(0, 130)]);
}

#[test]
fn seg_coverage_gluing_runs_reproduces_input() {
    let points = vec![
        pt(0, 0),
        pt(40, 0),
        pt(90, 10),
        pt(200, 10),
        pt(210, 40),
        pt(500, 40),
        pt(505, 45),
    ];
    let runs = segment_points(&points, 100);
    assert!(runs.len() >= 2);
    // Adjacent runs share exactly one boundary point.
    for w in runs.windows(2) {
        assert_eq!(w[0].last(), w[1].first());
    }
    // Concatenating all runs, removing one duplicate at each shared
    // boundary, reproduces the input in order.
    let mut glued: Vec<Point> = runs[0].clone();
    for run in &runs[1..] {
        glued.extend_from_slice(&run[1..]);
    }
    assert_eq!(glued, points);
}

#[test]
fn seg_all_points_identical_is_one_run() {
    let points = vec![pt(5, 5); 6];
    let runs = segment_points(&points, 100);
    assert_eq!(runs.len(), 1);
    assert_eq!(runs[0], points);
}
