//! The pattern library: exact footprints, partial application near
//! the edge, and the round trip from stamping to reading back.

use conways_game_of_life::config;
use conways_game_of_life::{Grid, Grid1dVec, Grid2dArr, Grid2dVec};

fn live_cells<G: Grid>(grid: &G) -> Vec<(u16, u16)> {
    grid.inspect().into_iter().filter(|e| e.1).map(|e| e.0).collect()
}

fn sorted(mut v: Vec<(u16, u16)>) -> Vec<(u16, u16)> {
    v.sort();
    v
}

#[test]
fn block_footprint() {
    let mut grid = Grid1dVec::empty((6, 6));
    config::block(&mut grid, (1, 1)).unwrap();
    assert_eq!(sorted(live_cells(&grid)), vec![(1, 1), (1, 2), (2, 1), (2, 2)]);
}

#[test]
fn bee_hive_footprint() {
    let mut grid = Grid1dVec::empty((6, 6));
    config::bee_hive(&mut grid, (0, 0)).unwrap();
    assert_eq!(
        sorted(live_cells(&grid)),
        vec![(0, 1), (1, 0), (1, 2), (2, 0), (2, 2), (3, 1)]
    );
}

#[test]
fn loaf_footprint() {
    let mut grid = Grid1dVec::empty((6, 6));
    config::loaf(&mut grid, (0, 0)).unwrap();
    assert_eq!(
        sorted(live_cells(&grid)),
        vec![(0, 1), (1, 0), (1, 2), (2, 0), (2, 3), (3, 1), (3, 2)]
    );
}

#[test]
fn boat_footprint() {
    let mut grid = Grid1dVec::empty((6, 6));
    config::boat(&mut grid, (0, 0)).unwrap();
    assert_eq!(sorted(live_cells(&grid)), vec![(0, 0), (0, 1), (1, 0), (1, 2), (2, 1)]);
}

#[test]
fn tub_footprint() {
    let mut grid = Grid1dVec::empty((6, 6));
    config::tub(&mut grid, (0, 0)).unwrap();
    assert_eq!(sorted(live_cells(&grid)), vec![(0, 1), (1, 0), (1, 2), (2, 1)]);
}

#[test]
fn blinker_footprint() {
    let mut grid = Grid1dVec::empty((6, 6));
    config::blinker(&mut grid, (1, 1)).unwrap();
    assert_eq!(sorted(live_cells(&grid)), vec![(1, 1), (2, 1), (3, 1)]);
}

#[test]
fn toad_footprint() {
    let mut grid = Grid1dVec::empty((6, 6));
    config::toad(&mut grid, (0, 0)).unwrap();
    assert_eq!(
        sorted(live_cells(&grid)),
        vec![(0, 1), (1, 0), (1, 1), (2, 0), (2, 1), (3, 0)]
    );
}

#[test]
fn beacon_footprint() {
    let mut grid = Grid1dVec::empty((6, 6));
    config::beacon(&mut grid, (0, 0)).unwrap();
    assert_eq!(
        sorted(live_cells(&grid)),
        vec![(0, 0), (0, 1), (1, 0), (1, 1), (2, 2), (2, 3), (3, 2), (3, 3)]
    );
}

#[test]
fn glider_footprint() {
    let mut grid = Grid1dVec::empty((6, 6));
    config::glider(&mut grid, (0, 0)).unwrap();
    assert_eq!(sorted(live_cells(&grid)), vec![(0, 2), (1, 0), (1, 2), (2, 1), (2, 2)]);
}

#[test]
fn penta_decathlon_footprint() {
    let mut grid = Grid1dVec::empty((8, 12));
    config::penta_decathlon(&mut grid, (0, 0)).unwrap();
    let live = sorted(live_cells(&grid));
    assert_eq!(live.len(), 12);
    // The pushed-out pairs are live, the column cells behind them are
    // not.
    assert!(live.contains(&(0, 2)) && live.contains(&(2, 2)));
    assert!(live.contains(&(0, 7)) && live.contains(&(2, 7)));
    assert!(!live.contains(&(1, 2)) && !live.contains(&(1, 7)));
    for j in [0, 1, 3, 4, 5, 6, 8, 9] {
        assert!(live.contains(&(1, j)));
    }
}

#[test]
fn pulsar_footprint_has_forty_eight_cells() {
    let mut grid = Grid1dVec::empty((15, 15));
    config::pulsar(&mut grid, (0, 0)).unwrap();
    let live = live_cells(&grid);
    assert_eq!(live.len(), 48);
    // One arm of each orientation, spot-checked.
    assert!(live.contains(&(2, 0)) && live.contains(&(3, 0)) && live.contains(&(4, 0)));
    assert!(live.contains(&(0, 2)) && live.contains(&(0, 3)) && live.contains(&(0, 4)));
    assert!(live.contains(&(12, 10)));
    assert!(!live.contains(&(6, 6)));
}

#[test]
fn spaceships_have_their_cell_counts() {
    let mut grid = Grid1dVec::empty((8, 8));
    config::lwss(&mut grid, (0, 0)).unwrap();
    assert_eq!(live_cells(&grid).len(), 9);

    let mut grid = Grid1dVec::empty((8, 8));
    config::mwss(&mut grid, (0, 0)).unwrap();
    assert_eq!(live_cells(&grid).len(), 11);

    let mut grid = Grid1dVec::empty((8, 8));
    config::hwss(&mut grid, (0, 0)).unwrap();
    assert_eq!(live_cells(&grid).len(), 13);
}

#[test]
fn pattern_near_the_edge_fails_after_partial_application() {
    let mut grid = Grid1dVec::empty((5, 5));
    let err = config::blinker(&mut grid, (3, 0)).unwrap_err();
    assert_eq!(err.point, (5, 0));
    assert_eq!(err.size, (5, 5));
    assert_eq!(sorted(live_cells(&grid)), vec![(3, 0), (4, 0)]);
}

#[test]
fn still_lifes_are_still() {
    let mut grid = Grid1dVec::empty((24, 8));
    config::block(&mut grid, (1, 1)).unwrap();
    config::bee_hive(&mut grid, (5, 1)).unwrap();
    config::loaf(&mut grid, (11, 1)).unwrap();
    config::boat(&mut grid, (17, 1)).unwrap();
    config::tub(&mut grid, (21, 4)).unwrap();
    let before = grid.inspect();
    grid.update();
    assert_eq!(grid.inspect(), before);
}

#[test]
fn showcase_requires_a_large_enough_grid() {
    let mut grid = Grid1dVec::empty((80, 21));
    assert!(config::test(&mut grid).is_ok());

    let mut grid = Grid1dVec::empty((67, 19));
    assert!(config::test(&mut grid).is_ok());

    let mut grid = Grid1dVec::empty((66, 19));
    assert!(config::test(&mut grid).is_err());

    let mut grid = Grid1dVec::empty((67, 18));
    assert!(config::test(&mut grid).is_err());
}

#[test]
fn stamping_reads_back_identically_on_every_backend() {
    let expected = vec![(1, 3), (2, 1), (2, 3), (3, 2), (3, 3)];

    let mut flat = Grid1dVec::empty((6, 6));
    config::glider(&mut flat, (1, 1)).unwrap();
    assert_eq!(sorted(live_cells(&flat)), expected);

    let mut nested = Grid2dVec::empty((6, 6));
    config::glider(&mut nested, (1, 1)).unwrap();
    assert_eq!(sorted(live_cells(&nested)), expected);

    let mut fixed = Grid2dArr::<6, 6>::empty();
    config::glider(&mut fixed, (1, 1)).unwrap();
    assert_eq!(sorted(live_cells(&fixed)), expected);

    assert_eq!(flat.inspect(), nested.inspect());
    assert_eq!(flat.inspect(), fixed.inspect());
}
