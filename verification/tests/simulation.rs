//! The generation step: fixed points, oscillators, wraparound
//! adjacency, degenerate sizes, and agreement across backends.

use conways_game_of_life::{
    next_cell_state_individual, Grid, Grid1dVec, Grid2dArr, Grid2dVec, GridPrivate,
};

fn live_cells<G: Grid>(grid: &G) -> Vec<(u16, u16)> {
    grid.inspect().into_iter().filter(|e| e.1).map(|e| e.0).collect()
}

fn stamp<G: Grid>(grid: &mut G, cells: &[(u16, u16)]) {
    for &p in cells {
        grid.set_cell(p, true).unwrap();
    }
}

#[test]
fn dead_grid_stays_dead() {
    for size in [(4, 4), (1, 1), (2, 3), (7, 5)] {
        let mut grid = Grid1dVec::empty(size);
        grid.update();
        assert_eq!(live_cells(&grid), vec![], "size {:?}", size);
        grid.update();
        assert_eq!(live_cells(&grid), vec![], "size {:?}", size);
    }
}

#[test]
fn block_is_a_still_life() {
    let mut grid = Grid1dVec::empty((6, 6));
    stamp(&mut grid, &[(2, 2), (3, 2), (2, 3), (3, 3)]);
    let before = grid.inspect();
    grid.update();
    assert_eq!(grid.inspect(), before);
    grid.update();
    assert_eq!(grid.inspect(), before);
}

#[test]
fn blinker_alternates_with_period_two() {
    let mut grid = Grid1dVec::empty((7, 7));
    // Horizontal blinker centered at (3, 3).
    stamp(&mut grid, &[(2, 3), (3, 3), (4, 3)]);
    let horizontal = grid.inspect();
    grid.update();
    let mut live = live_cells(&grid);
    live.sort();
    assert_eq!(live, vec![(3, 2), (3, 3), (3, 4)]);
    grid.update();
    assert_eq!(grid.inspect(), horizontal);
}

#[test]
fn corner_counts_wrapped_neighbors() {
    let mut grid = Grid1dVec::empty((4, 4));
    stamp(&mut grid, &[(3, 3), (3, 0), (0, 3)]);
    // The three far corners are toroidal neighbors of the origin, so
    // the dead origin has exactly three live neighbors and is born.
    assert!(next_cell_state_individual(&grid, (0, 0)));
    grid.update();
    assert!(grid.get_cell((0, 0)));
}

#[test]
fn one_wide_ring_of_live_cells_survives() {
    // On a 1x3 torus every cell has exactly the other two as its
    // distinct wrapped neighbors: all live, every count is two, and
    // the column survives unchanged.
    let mut grid = Grid1dVec::empty((1, 3));
    stamp(&mut grid, &[(0, 0), (0, 1), (0, 2)]);
    let before = grid.inspect();
    grid.update();
    assert_eq!(grid.inspect(), before);
}

#[test]
fn two_by_two_full_grid_is_stable() {
    // On a 2x2 torus each cell sees the three distinct other cells
    // exactly once: count three, everybody survives.
    let mut grid = Grid1dVec::empty((2, 2));
    stamp(&mut grid, &[(0, 0), (1, 0), (0, 1), (1, 1)]);
    let before = grid.inspect();
    grid.update();
    assert_eq!(grid.inspect(), before);
}

#[test]
fn glider_takes_its_next_shape() {
    let mut grid = Grid1dVec::empty((6, 6));
    stamp(&mut grid, &[(2, 1), (3, 2), (1, 3), (2, 3), (3, 3)]);
    grid.update();
    let mut live = live_cells(&grid);
    live.sort();
    assert_eq!(live, vec![(1, 2), (2, 3), (2, 4), (3, 2), (3, 3)]);
}

#[test]
fn backends_agree_on_the_same_run() {
    let cells = [(2, 1), (3, 2), (1, 3), (2, 3), (3, 3), (5, 5)];
    let mut flat = Grid1dVec::empty((6, 6));
    let mut nested = Grid2dVec::empty((6, 6));
    let mut fixed = Grid2dArr::<6, 6>::empty();
    stamp(&mut flat, &cells);
    stamp(&mut nested, &cells);
    stamp(&mut fixed, &cells);
    for _ in 0..4 {
        flat.update();
        nested.update();
        fixed.update();
        assert_eq!(flat.inspect(), nested.inspect());
        assert_eq!(flat.inspect(), fixed.inspect());
    }
}

#[test]
fn boxed_grid_behaves_like_the_grid() {
    let mut boxed: Box<Grid1dVec> = Box::new(Grid1dVec::empty((7, 7)));
    let mut plain = Grid1dVec::empty((7, 7));
    stamp(&mut boxed, &[(2, 3), (3, 3), (4, 3)]);
    stamp(&mut plain, &[(2, 3), (3, 3), (4, 3)]);
    boxed.update();
    plain.update();
    assert_eq!(boxed.inspect(), plain.inspect());
}

#[test]
fn update_keeps_the_attached_pacer() {
    let mut grid = Grid1dVec::empty((5, 5));
    grid.set_fps(25);
    stamp(&mut grid, &[(1, 1), (2, 1), (3, 1)]);
    grid.update();
    let pacer = *grid._frame_regulator_opt();
    assert_eq!(pacer.map(|p| p.frame_duration_nanos), Some(40_000_000));
}

#[test]
fn cloned_grid_evolves_independently() {
    let mut grid = Grid2dVec::empty((6, 6));
    stamp(&mut grid, &[(2, 3), (3, 3), (4, 3)]);
    let snapshot = grid.clone();
    grid.update();
    assert_ne!(grid.inspect(), snapshot.inspect());
    let mut restored = snapshot.clone();
    assert_eq!(restored.inspect(), snapshot.inspect());
    restored.update();
    assert_eq!(restored.inspect(), grid.inspect());
}
