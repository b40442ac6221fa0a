use flowfield::fixed::ONE;
use flowfield::{Grid, InvalidConfiguration};

fn collect(grid: &Grid) -> Vec<(i64, i64)> {
    let mut it = grid.iter();
    let mut out = Vec::new();
    while let Some(p) = it.next() {
        out.push(p);
    }
    out
}

#[test]
fn two_by_two_grid_yields_cell_origins_in_row_major_order() {
    let grid = Grid::new(0, 10, 0, 10, 2, 2).unwrap();
    let mut it = grid.iter();
    assert_eq!(it.next(), Some((0, 0)));
    assert_eq!(it.next(), Some((5, 0)));
    assert_eq!(it.next(), Some((0, 5)));
    assert_eq!(it.next(), Some((5, 5)));
    assert_eq!(it.next(), None);
    assert_eq!(it.next(), None);
}

#[test]
fn points_collects_the_whole_walk() {
    let grid = Grid::new(0, 10, 0, 10, 2, 2).unwrap();
    assert_eq!(grid.points(), vec![(0, 0), (5, 0), (0, 5), (5, 5)]);
    assert_eq!(grid.points(), collect(&grid));
}

#[test]
fn grid_without_rows_is_refused() {
    assert_eq!(Grid::new(0, 10, 0, 10, 0, 2), Err(InvalidConfiguration));
}

#[test]
fn grid_without_columns_is_refused() {
    assert_eq!(Grid::new(0, 10, 0, 10, 2, 0), Err(InvalidConfiguration));
    assert_eq!(Grid::new(0, 10, 0, 10, 0, 0), Err(InvalidConfiguration));
}

#[test]
fn grid_yields_rows_times_cols_points_at_the_step_formula() {
    let (x_min, x_max, y_min, y_max) = (-3 * ONE, 9 * ONE, 2 * ONE, 5 * ONE);
    let (rows, cols) = (3usize, 4usize);
    let grid = Grid::new(x_min, x_max, y_min, y_max, rows, cols).unwrap();
    let points = grid.points();
    assert_eq!(points.len(), rows * cols);
    let x_step = (x_max - x_min) / cols as i64;
    let y_step = (y_max - y_min) / rows as i64;
    assert_eq!(x_step, 3 * ONE);
    assert_eq!(y_step, ONE);
    for r in 0..rows {
        for c in 0..cols {
            let expected = (x_min + c as i64 * x_step, y_min + r as i64 * y_step);
            assert_eq!(points[r * cols + c], expected);
        }
    }
}

#[test]
fn every_walk_starts_afresh() {
    let grid = Grid::new(0, 12, 0, 6, 2, 3).unwrap();
    let mut first = grid.iter();
    assert_eq!(first.next(), Some((0, 0)));
    assert_eq!(first.next(), Some((4, 0)));
    let mut second = grid.iter();
    assert_eq!(second.next(), Some((0, 0)));
    assert_eq!(first.next(), Some((8, 0)));
    assert_eq!(collect(&grid), collect(&grid));
    assert_eq!(collect(&grid).len(), 6);
}

#[test]
fn step_is_rounded_toward_zero() {
    let grid = Grid::new(0, 10, 0, -10, 3, 3).unwrap();
    assert_eq!(
        grid.points(),
        vec![(0, 0), (3, 0), (6, 0), (0, -3), (3, -3), (6, -3), (0, -6), (3, -6), (6, -6)]
    );
}

#[test]
fn single_cell_grid_yields_its_corner() {
    let grid = Grid::new(7, 9, -4, 4, 1, 1).unwrap();
    assert_eq!(grid.points(), vec![(7, -4)]);
}

#[test]
fn grid_over_the_whole_range_does_not_overflow() {
    let grid = Grid::new(i64::MIN, i64::MAX, i64::MAX, i64::MIN, 2, 2).unwrap();
    let step = ((i64::MAX as i128 - i64::MIN as i128) / 2) as i128;
    let points = grid.points();
    assert_eq!(points.len(), 4);
    assert_eq!(points[0], (i64::MIN, i64::MAX));
    assert_eq!(points[1], ((i64::MIN as i128 + step) as i64, i64::MAX));
    assert_eq!(points[2], (i64::MIN, (i64::MAX as i128 - step) as i64));
    assert_eq!(points[3], ((i64::MIN as i128 + step) as i64, (i64::MAX as i128 - step) as i64));
}

#[test]
fn degenerate_extent_yields_the_same_point_for_every_cell() {
    let grid = Grid::new(5, 5, 1, 1, 2, 3).unwrap();
    assert_eq!(grid.points(), vec![(5, 1); 6]);
}
