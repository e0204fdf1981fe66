use line_drawing::grid_walking::reverse;
use line_drawing::grid_walking::sort_y;
use line_drawing::grid_walking::sorted_walk_grid;
use line_drawing::grid_walking::supercover;
use line_drawing::grid_walking::walk_grid;

#[test]
fn walk_grid_tests() {
    assert_eq!(
        walk_grid((0, 0), (2, 2)),
        [(0, 0), (0, 1), (1, 1), (1, 2), (2, 2)]
    );

    assert_eq!(
        walk_grid((0, 0), (3, 2)),
        [(0, 0), (1, 0), (1, 1), (2, 1), (2, 2), (3, 2)]
    );

    // by default, walk grid is asymmetrical
    assert_ne!(
        walk_grid((0, 0), (2, 2)),
        reverse(&walk_grid((2, 2), (0, 0)))
    );

    // sorted walk grid should be symmetrical
    assert_eq!(
        sorted_walk_grid((0, 0), (20, 20)),
        reverse(&sorted_walk_grid((20, 20), (0, 0)))
    );
}

#[test]
fn supercover_tests() {
    // supercover should jump diagonally if the difference is equal
    assert_eq!(
        supercover((0, 0), (5, 5)),
        [(0, 0), (1, 1), (2, 2), (3, 3), (4, 4), (5, 5)]
    );

    assert_eq!(supercover((0, 0), (3, 1)), [(0, 0), (1, 0), (2, 1), (3, 1)]);

    assert_ne!(walk_grid((0, 0), (-10, 10)), supercover((0, 0), (-10, 10)));
    assert_ne!(supercover((20, 10), (10, 20)), walk_grid((20, 10), (10, 20)));

    // otherwise it should do the same as walk grid
    assert_eq!(supercover((0, 0), (4, 5)), walk_grid((0, 0), (4, 5)));

    // supercover should be symmetrical
    assert_eq!(
        supercover((0, 0), (2, 3)),
        reverse(&supercover((2, 3), (0, 0)))
    );
    assert_eq!(
        supercover((0, 0), (5, 5)),
        reverse(&supercover((5, 5), (0, 0)))
    );
    assert_eq!(
        supercover((0, 0), (19, 13)),
        reverse(&supercover((19, 13), (0, 0)))
    );
}

#[test]
fn walk_grid_step_count() {
    assert_eq!(
        walk_grid((0, 0), (5, 3)),
        [
            (0, 0),
            (1, 0),
            (1, 1),
            (2, 1),
            (2, 2),
            (3, 2),
            (4, 2),
            (4, 3),
            (5, 3)
        ]
    );
    let points = walk_grid((-3, 7), (4, -2));
    assert_eq!(points.len(), 7 + 9 + 1);
    assert_eq!(points[0], (-3, 7));
    assert_eq!(points[points.len() - 1], (4, -2));
}

#[test]
fn degenerate_walks_single_point() {
    assert_eq!(walk_grid((4, -9), (4, -9)), [(4, -9)]);
    assert_eq!(supercover((4, -9), (4, -9)), [(4, -9)]);
    assert_eq!(sorted_walk_grid((0, 0), (0, 0)), [(0, 0)]);
}

#[test]
fn sorted_walk_grid_symmetry_cases() {
    for &(a, b) in &[
        ((0, 0), (7, -11)),
        ((3, 5), (-6, 5)),
        ((2, 2), (0, 0)),
        ((-4, 9), (13, -2)),
    ] {
        assert_eq!(sorted_walk_grid(a, b), reverse(&sorted_walk_grid(b, a)));
    }
}

#[test]
fn supercover_symmetry_cases() {
    for &(a, b) in &[
        ((0, 0), (-10, 10)),
        ((20, 10), (10, 20)),
        ((-7, -3), (2, 11)),
        ((1, 1), (1, 9)),
    ] {
        assert_eq!(supercover(a, b), reverse(&supercover(b, a)));
    }
}

#[test]
fn sort_y_and_reverse_helpers() {
    assert_eq!(sort_y((1, 5), (2, 3)), ((2, 3), (1, 5), true));
    assert_eq!(sort_y((2, 3), (1, 5)), ((2, 3), (1, 5), false));
    assert_eq!(sort_y((0, 4), (9, 4)), ((0, 4), (9, 4), false));
    assert_eq!(reverse(&vec![(1, 2), (3, 4), (5, 6)]), [(5, 6), (3, 4), (1, 2)]);
    assert_eq!(reverse(&Vec::new()), []);
}
