use line_drawing::bresenham_ellipse::BresenhamEllipse;
use line_drawing::midpoint_ellipse::MidpointEllipse;

fn collect_bresenham(cx: i64, cy: i64, rx: i64, ry: i64) -> Vec<(i64, i64)> {
    let mut producer = BresenhamEllipse::new(cx, cy, rx, ry);
    let mut out = Vec::new();
    while let Some(point) = producer.next() {
        out.push(point);
    }
    out
}

fn collect_midpoint(cx: i64, cy: i64, rx: i64, ry: i64) -> Vec<(i64, i64)> {
    let mut producer = MidpointEllipse::new(cx, cy, rx, ry);
    let mut out = Vec::new();
    while let Some(point) = producer.next() {
        out.push(point);
    }
    out
}

#[test]
fn bresenham_ellipse_tests() {
    let ellipse = |a, b, c, d| collect_bresenham(a, b, c, d);

    println!("{:?}", ellipse(5, 5, 2, 3));

    let mut be = ellipse(50, 50, 10, 15);
    be.sort();

    let mut ce = [
        (50, 65),
        (50, 65),
        (50, 35),
        (50, 35),
        (51, 65),
        (49, 65),
        (51, 35),
        (49, 35),
        (52, 65),
        (48, 65),
        (52, 35),
        (48, 35),
        (53, 64),
        (47, 64),
        (53, 36),
        (47, 36),
        (54, 64),
        (46, 64),
        (54, 36),
        (46, 36),
        (55, 63),
        (45, 63),
        (55, 37),
        (45, 37),
        (56, 62),
        (44, 62),
        (56, 38),
        (44, 38),
        (57, 61),
        (43, 61),
        (57, 39),
        (43, 39),
        (57, 60),
        (43, 60),
        (57, 40),
        (43, 40),
        (58, 59),
        (42, 59),
        (58, 41),
        (42, 41),
        (58, 58),
        (42, 58),
        (58, 42),
        (42, 42),
        (59, 57),
        (41, 57),
        (59, 43),
        (41, 43),
        (59, 56),
        (41, 56),
        (59, 44),
        (41, 44),
        (59, 55),
        (41, 55),
        (59, 45),
        (41, 45),
        (60, 54),
        (40, 54),
        (60, 46),
        (40, 46),
        (60, 53),
        (40, 53),
        (60, 47),
        (40, 47),
        (60, 52),
        (40, 52),
        (60, 48),
        (40, 48),
        (60, 51),
        (40, 51),
        (60, 49),
        (40, 49),
        (60, 50),
        (40, 50),
        (60, 50),
        (40, 50),
    ];
    ce.sort();

    assert_eq!(be, ce);
}

#[test]
fn midpoint_ellipse_tests() {
    let ellipse = |a, b, c, d| collect_midpoint(a, b, c, d);

    let mut me = ellipse(50, 50, 10, 15);
    me.sort();

    let mut ce = vec![
            (50, 65),
            (50, 65),
            (50, 35),
            (50, 35),
            (51, 65),
            (49, 65),
            (51, 35),
            (49, 35),
            (52, 65),
            (48, 65),
            (52, 35),
            (48, 35),
            (53, 64),
            (47, 64),
            (53, 36),
            (47, 36),
            (54, 64),
            (46, 64),
            (54, 36),
            (46, 36),
            (55, 63),
            (45, 63),
            (55, 37),
            (45, 37),
            (56, 62),
            (44, 62),
            (56, 38),
            (44, 38),
            (57, 61),
            (43, 61),
            (57, 39),
            (43, 39),
            (57, 60),
            (43, 60),
            (57, 40),
            (43, 40),
            (58, 59),
            (42, 59),
            (58, 41),
            (42, 41),
            (58, 58),
            (42, 58),
            (58, 42),
            (42, 42),
            (59, 57),
            (41, 57),
            (59, 43),
            (41, 43),
            (59, 56),
            (41, 56),
            (59, 44),
            (41, 44),
            (59, 55),
            (41, 55),
            (59, 45),
            (41, 45),
            (60, 54),
            (40, 54),
            (60, 46),
            (40, 46),
            (60, 53),
            (40, 53),
            (60, 47),
            (40, 47),
            (60, 52),
            (40, 52),
            (60, 48),
            (40, 48),
            (60, 51),
            (40, 51),
            (60, 49),
            (40, 49),
            (60, 50),
            (40, 50),
            (60, 50),
            (40, 50),
        ];
    ce.sort();

    assert_eq!(me, ce);
}

#[test]
fn midpoint_ellipse_emission_order() {
    // Starts at offset (radius_x, 0); each block of four runs through the
    // quadrants in the order (+x,+y), (-x,+y), (-x,-y), (+x,-y).
    let offsets = [
        (10, 0),
        (10, 1),
        (10, 2),
        (10, 3),
        (10, 4),
        (9, 5),
        (9, 6),
        (9, 7),
        (8, 8),
        (8, 9),
        (7, 10),
        (7, 11),
        (6, 12),
        (5, 13),
        (4, 14),
        (3, 14),
        (2, 15),
        (1, 15),
        (0, 15),
    ];
    let mut expected = Vec::new();
    for &(ox, oy) in &offsets {
        expected.push((50 + ox, 50 + oy));
        expected.push((50 - ox, 50 + oy));
        expected.push((50 - ox, 50 - oy));
        expected.push((50 + ox, 50 - oy));
    }
    assert_eq!(collect_midpoint(50, 50, 10, 15), expected);
}

#[test]
fn bresenham_small_ellipse_exact() {
    assert_eq!(
        collect_bresenham(5, 5, 2, 3),
        [
            (7, 5),
            (3, 5),
            (3, 5),
            (7, 5),
            (7, 6),
            (3, 6),
            (3, 4),
            (7, 4),
            (6, 7),
            (4, 7),
            (4, 3),
            (6, 3),
            (5, 8),
            (5, 8),
            (5, 2),
            (5, 2),
            (6, 8),
            (4, 8),
            (4, 2),
            (6, 2),
        ]
    );
}

#[test]
fn conic_producers_agree_as_point_sets() {
    // The two producers implement two textbook derivations of the same
    // curve; for these radii the unordered point collections coincide.
    for &(cx, cy, rx, ry) in &[(50, 50, 10, 15), (0, 0, 5, 5)] {
        let mut bresenham = collect_bresenham(cx, cy, rx, ry);
        let mut midpoint = collect_midpoint(cx, cy, rx, ry);
        bresenham.sort();
        bresenham.dedup();
        midpoint.sort();
        midpoint.dedup();
        assert_eq!(bresenham, midpoint, "radii ({}, {})", rx, ry);
    }
}

#[test]
fn four_fold_symmetry_of_outputs() {
    for &(cx, cy, rx, ry) in &[(5, 5, 2, 3), (0, 0, 6, 4)] {
        for points in [collect_bresenham(cx, cy, rx, ry), collect_midpoint(cx, cy, rx, ry)] {
            for &(px, py) in &points {
                let (ox, oy) = (px - cx, py - cy);
                assert!(points.contains(&(cx - ox, cy + oy)));
                assert!(points.contains(&(cx + ox, cy - oy)));
                assert!(points.contains(&(cx - ox, cy - oy)));
            }
        }
    }
}

#[test]
fn steps_adapter_forwards_pulls() {
    let mut direct = collect_midpoint(5, 5, 2, 3);
    let mut via_steps = Vec::new();
    let mut steps = MidpointEllipse::new(5, 5, 2, 3).steps();
    while let Some(point) = steps.next() {
        via_steps.push(point);
    }
    direct.sort();
    via_steps.sort();
    assert_eq!(direct, via_steps);
}

#[test]
fn degenerate_radius_circle() {
    // A zero radius on one axis degenerates but still terminates.
    let line = collect_bresenham(0, 0, 0, 3);
    assert!(line.contains(&(0, 3)));
    assert!(line.contains(&(0, -3)));
    let flat = collect_midpoint(7, 7, 3, 0);
    assert!(flat.contains(&(10, 7)));
    assert!(flat.contains(&(4, 7)));
}
