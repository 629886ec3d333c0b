//! Cell access, runs, lines, iteration and rendering on the flat
//! backend.

use conways_game_of_life::{Grid, Grid1dVec, GridPrivate, SetLineOpt};

fn live_cells<G: Grid>(grid: &G) -> Vec<(u16, u16)> {
    grid.inspect().into_iter().filter(|e| e.1).map(|e| e.0).collect()
}

#[test]
fn set_then_get_reads_back() {
    let mut grid = Grid1dVec::empty((5, 4));
    assert!(!grid.get_cell((2, 1)));
    grid.set_cell((2, 1), true).unwrap();
    assert!(grid.get_cell((2, 1)));
    assert!(grid.get_cell_unchecked((2, 1)));
    // Out-of-range reads are dead, not errors.
    assert!(!grid.get_cell((5, 0)));
    assert!(!grid.get_cell((0, 4)));
    assert!(!grid.get_cell((60000, 60000)));
}

#[test]
fn set_cell_out_of_bounds_reports_point_and_size() {
    let mut grid = Grid1dVec::empty((5, 4));
    let err = grid.set_cell((7, 2), true).unwrap_err();
    assert_eq!(err.point, (7, 2));
    assert_eq!(err.size, (5, 4));
    let err = grid.set_cell((0, 4), true).unwrap_err();
    assert_eq!(err.point, (0, 4));
    assert_eq!(err.size, (5, 4));
}

#[test]
fn size_reports_construction_dimensions() {
    let grid = Grid1dVec::empty((7, 3));
    assert_eq!(grid.size(), (7, 3));
}

#[test]
fn set_run_length_one_equals_set_cell() {
    let mut by_run = Grid1dVec::empty((6, 6));
    let mut by_cell = Grid1dVec::empty((6, 6));
    by_run.set_run(2, 1, 4, true, SetLineOpt::Vertical).unwrap();
    by_cell.set_cell((4, 2), true).unwrap();
    assert_eq!(by_run.inspect(), by_cell.inspect());

    let mut by_run = Grid1dVec::empty((6, 6));
    let mut by_cell = Grid1dVec::empty((6, 6));
    by_run.set_run(3, 1, 5, true, SetLineOpt::Horizontal).unwrap();
    by_cell.set_cell((3, 5), true).unwrap();
    assert_eq!(by_run.inspect(), by_cell.inspect());
}

#[test]
fn set_hline_and_set_vline_draw_runs() {
    let mut grid = Grid1dVec::empty((6, 6));
    grid.set_hline(1, 3, 2, true).unwrap();
    grid.set_vline(3, 2, 5, true).unwrap();
    let mut expected = vec![(1, 2), (2, 2), (3, 2), (5, 3), (5, 4)];
    expected.sort();
    let mut live = live_cells(&grid);
    live.sort();
    assert_eq!(live, expected);
}

#[test]
fn set_run_fails_on_first_out_of_range_cell_without_rollback() {
    let mut grid = Grid1dVec::empty((5, 5));
    let err = grid.set_hline(3, 4, 2, true).unwrap_err();
    assert_eq!(err.point, (5, 2));
    assert_eq!(err.size, (5, 5));
    // The cells before the failure stay written.
    assert_eq!(live_cells(&grid), vec![(3, 2), (4, 2)]);

    let mut grid = Grid1dVec::empty((5, 5));
    let err = grid.set_vline(4, 3, 1, true).unwrap_err();
    assert_eq!(err.point, (1, 5));
    assert_eq!(live_cells(&grid), vec![(1, 4)]);

    // A run on a row that does not exist fails at its first cell.
    let mut grid = Grid1dVec::empty((5, 5));
    let err = grid.set_hline(1, 2, 9, true).unwrap_err();
    assert_eq!(err.point, (1, 9));
    assert_eq!(live_cells(&grid), vec![]);
}

#[test]
fn set_line_degenerate_single_point() {
    let mut grid = Grid1dVec::empty((6, 6));
    grid.set_line((2, 0), (2, 0), true).unwrap();
    assert_eq!(live_cells(&grid), vec![(2, 0)]);
}

#[test]
fn set_line_draws_diagonal() {
    let mut grid = Grid1dVec::empty((6, 6));
    grid.set_line((0, 0), (2, 2), true).unwrap();
    let mut live = live_cells(&grid);
    live.sort();
    assert_eq!(live, vec![(0, 0), (1, 1), (2, 2)]);
}

#[test]
fn set_line_endpoint_order_does_not_matter() {
    let mut forward = Grid1dVec::empty((8, 8));
    let mut backward = Grid1dVec::empty((8, 8));
    forward.set_line((1, 2), (6, 4), true).unwrap();
    backward.set_line((6, 4), (1, 2), true).unwrap();
    assert_eq!(forward.inspect(), backward.inspect());
}

#[test]
fn set_line_steep_walks_vertical_axis() {
    let mut grid = Grid1dVec::empty((6, 6));
    grid.set_line((0, 0), (1, 4), true).unwrap();
    let mut live = live_cells(&grid);
    live.sort();
    // One cell per row; x follows the rounded ideal line, halves
    // rounding away from zero.
    assert_eq!(live, vec![(0, 0), (0, 1), (1, 2), (1, 3), (1, 4)]);
}

#[test]
fn set_line_fails_at_first_cell_outside_the_grid() {
    let mut grid = Grid1dVec::empty((4, 4));
    let err = grid.set_line((2, 1), (6, 1), true).unwrap_err();
    assert_eq!(err.point, (4, 1));
    assert_eq!(err.size, (4, 4));
    let mut live = live_cells(&grid);
    live.sort();
    assert_eq!(live, vec![(2, 1), (3, 1)]);
}

#[test]
fn inspect_is_row_major() {
    let mut grid = Grid1dVec::empty((3, 2));
    grid.set_cell((2, 0), true).unwrap();
    let v = grid.inspect();
    assert_eq!(v.len(), 6);
    assert_eq!(
        v,
        vec![
            ((0, 0), false),
            ((1, 0), false),
            ((2, 0), true),
            ((0, 1), false),
            ((1, 1), false),
            ((2, 1), false),
        ]
    );
}

#[test]
fn as_slice_is_the_flat_current_generation() {
    let mut grid = Grid1dVec::empty((3, 2));
    grid.set_cell((1, 1), true).unwrap();
    let s = grid.as_slice();
    assert_eq!(s, &[false, false, false, false, true, false]);
}

#[test]
fn to_text_renders_rows_with_newlines() {
    let mut grid = Grid1dVec::empty((3, 2));
    grid.set_cell((0, 0), true).unwrap();
    grid.set_cell((2, 1), true).unwrap();
    let text = grid.to_text('X', '-');
    assert_eq!(text, "X--\n--X\n");
}

#[test]
fn set_fps_attaches_and_detaches_the_pacer() {
    let mut grid = Grid1dVec::empty((3, 3));
    grid.set_fps(10);
    let pacer = *grid._frame_regulator_opt();
    assert_eq!(pacer.map(|p| p.frame_duration_nanos), Some(100_000_000));
    grid.set_fps(0);
    assert!(grid._frame_regulator_opt().is_none());
}
