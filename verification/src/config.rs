//! The pattern library: still lifes, oscillators and spaceships,
//! stamped through the grid's drawing primitives.  Every stamp
//! propagates the first out-of-range failure and leaves the cells
//! written before it in place, as the primitives themselves do.

use vstd::prelude::*;

use crate::grid::{grid_inv, same_but_cur, BResult, Grid};
use crate::GridPoint;

verus! {

/// The cells of a block: a two-by-two square of live cells anchored
/// at `(x, y)`.
pub open spec fn block_cells(x: int, y: int, i: int, j: int) -> bool {
    x <= i <= x + 1 && y <= j <= y + 1
}

/// Stamp a block, the smallest still life.
pub fn block<G: Grid>(grid: &mut G, point: GridPoint) -> (r: BResult<()>)
    requires
        grid_inv(old(grid)),
        point.0 as int + 2 <= 0x10000,
        point.1 as int + 2 <= 0x10000,
    ensures
        grid_inv(final(grid)),
        same_but_cur(*old(grid), *final(grid)),
        r is Ok <==> (point.0 as int + 2 <= old(grid).spec_width() && point.1 as int + 2 <= old(
            grid,
        ).spec_height()),
        r is Ok ==> forall|i: int, j: int|
            0 <= i < old(grid).spec_width() && 0 <= j < old(grid).spec_height()
                ==> #[trigger] final(grid).cur()[j][i] == (block_cells(
                point.0 as int,
                point.1 as int,
                i,
                j,
            ) || old(grid).cur()[j][i]),
{
    let (x, y) = point;
    grid.set_hline(x, 2, y, true)?;
    grid.set_hline(x, 2, y + 1, true)
}

/// The cells of a bee hive still life anchored at `(x, y)`.
pub open spec fn bee_hive_cells(x: int, y: int, i: int, j: int) -> bool {
    ||| (j == y && x + 1 <= i <= x + 2)
    ||| (j == y + 1 && (i == x || i == x + 3))
    ||| (j == y + 2 && x + 1 <= i <= x + 2)
}

/// Stamp a bee hive still life.
pub fn bee_hive<G: Grid>(grid: &mut G, point: GridPoint) -> (r: BResult<()>)
    requires
        grid_inv(old(grid)),
        point.0 as int + 4 <= 0x10000,
        point.1 as int + 3 <= 0x10000,
    ensures
        grid_inv(final(grid)),
        same_but_cur(*old(grid), *final(grid)),
        r is Ok <==> (point.0 as int + 4 <= old(grid).spec_width() && point.1 as int + 3 <= old(
            grid,
        ).spec_height()),
        r is Ok ==> forall|i: int, j: int|
            0 <= i < old(grid).spec_width() && 0 <= j < old(grid).spec_height()
                ==> #[trigger] final(grid).cur()[j][i] == (bee_hive_cells(
                point.0 as int,
                point.1 as int,
                i,
                j,
            ) || old(grid).cur()[j][i]),
{
    let (x, y) = point;
    grid.set_hline(x + 1, 2, y, true)?;
    grid.set_cell((x, y + 1), true)?;
    grid.set_cell((x + 3, y + 1), true)?;
    grid.set_hline(x + 1, 2, y + 2, true)
}

/// The cells of a loaf still life anchored at `(x, y)`.
pub open spec fn loaf_cells(x: int, y: int, i: int, j: int) -> bool {
    ||| (j == y && x + 1 <= i <= x + 2)
    ||| (i == x + 3 && y + 1 <= j <= y + 2)
    ||| (i == x && j == y + 1)
    ||| (i == x + 1 && j == y + 2)
    ||| (i == x + 2 && j == y + 3)
}

/// Stamp a loaf still life.
pub fn loaf<G: Grid>(grid: &mut G, point: GridPoint) -> (r: BResult<()>)
    requires
        grid_inv(old(grid)),
        point.0 as int + 4 <= 0x10000,
        point.1 as int + 4 <= 0x10000,
    ensures
        grid_inv(final(grid)),
        same_but_cur(*old(grid), *final(grid)),
        r is Ok <==> (point.0 as int + 4 <= old(grid).spec_width() && point.1 as int + 4 <= old(
            grid,
        ).spec_height()),
        r is Ok ==> forall|i: int, j: int|
            0 <= i < old(grid).spec_width() && 0 <= j < old(grid).spec_height()
                ==> #[trigger] final(grid).cur()[j][i] == (loaf_cells(
                point.0 as int,
                point.1 as int,
                i,
                j,
            ) || old(grid).cur()[j][i]),
{
    let (x, y) = point;
    grid.set_hline(x + 1, 2, y, true)?;
    grid.set_vline(y + 1, 2, x + 3, true)?;
    grid.set_cell((x, y + 1), true)?;
    grid.set_cell((x + 1, y + 2), true)?;
    grid.set_cell((x + 2, y + 3), true)
}

/// The cells of a boat still life anchored at `(x, y)`.
pub open spec fn boat_cells(x: int, y: int, i: int, j: int) -> bool {
    ||| (j == y && x <= i <= x + 1)
    ||| (j == y + 1 && (i == x || i == x + 2))
    ||| (j == y + 2 && i == x + 1)
}

/// Stamp a boat still life.
pub fn boat<G: Grid>(grid: &mut G, point: GridPoint) -> (r: BResult<()>)
    requires
        grid_inv(old(grid)),
        point.0 as int + 3 <= 0x10000,
        point.1 as int + 3 <= 0x10000,
    ensures
        grid_inv(final(grid)),
        same_but_cur(*old(grid), *final(grid)),
        r is Ok <==> (point.0 as int + 3 <= old(grid).spec_width() && point.1 as int + 3 <= old(
            grid,
        ).spec_height()),
        r is Ok ==> forall|i: int, j: int|
            0 <= i < old(grid).spec_width() && 0 <= j < old(grid).spec_height()
                ==> #[trigger] final(grid).cur()[j][i] == (boat_cells(
                point.0 as int,
                point.1 as int,
                i,
                j,
            ) || old(grid).cur()[j][i]),
{
    let (x, y) = point;
    grid.set_hline(x, 2, y, true)?;
    grid.set_cell((x, y + 1), true)?;
    grid.set_cell((x + 2, y + 1), true)?;
    grid.set_cell((x + 1, y + 2), true)
}

/// The cells of a tub still life anchored at `(x, y)`.
pub open spec fn tub_cells(x: int, y: int, i: int, j: int) -> bool {
    ||| (j == y && i == x + 1)
    ||| (j == y + 1 && (i == x || i == x + 2))
    ||| (j == y + 2 && i == x + 1)
}

/// Stamp a tub still life.
pub fn tub<G: Grid>(grid: &mut G, point: GridPoint) -> (r: BResult<()>)
    requires
        grid_inv(old(grid)),
        point.0 as int + 3 <= 0x10000,
        point.1 as int + 3 <= 0x10000,
    ensures
        grid_inv(final(grid)),
        same_but_cur(*old(grid), *final(grid)),
        r is Ok <==> (point.0 as int + 3 <= old(grid).spec_width() && point.1 as int + 3 <= old(
            grid,
        ).spec_height()),
        r is Ok ==> forall|i: int, j: int|
            0 <= i < old(grid).spec_width() && 0 <= j < old(grid).spec_height()
                ==> #[trigger] final(grid).cur()[j][i] == (tub_cells(
                point.0 as int,
                point.1 as int,
                i,
                j,
            ) || old(grid).cur()[j][i]),
{
    let (x, y) = point;
    grid.set_cell((x + 1, y), true)?;
    grid.set_cell((x, y + 1), true)?;
    grid.set_cell((x + 2, y + 1), true)?;
    grid.set_cell((x + 1, y + 2), true)
}

/// The cells of a horizontal blinker anchored at `(x, y)`.
pub open spec fn blinker_cells(x: int, y: int, i: int, j: int) -> bool {
    j == y && x <= i <= x + 2
}

/// Stamp a blinker: three live cells in a row, the smallest
/// oscillator.
pub fn blinker<G: Grid>(grid: &mut G, point: GridPoint) -> (r: BResult<()>)
    requires
        grid_inv(old(grid)),
        point.0 as int + 3 <= 0x10000,
        point.1 as int + 1 <= 0x10000,
    ensures
        grid_inv(final(grid)),
        same_but_cur(*old(grid), *final(grid)),
        r is Ok <==> (point.0 as int + 3 <= old(grid).spec_width() && point.1 as int + 1 <= old(
            grid,
        ).spec_height()),
        r is Ok ==> forall|i: int, j: int|
            0 <= i < old(grid).spec_width() && 0 <= j < old(grid).spec_height()
                ==> #[trigger] final(grid).cur()[j][i] == (blinker_cells(
                point.0 as int,
                point.1 as int,
                i,
                j,
            ) || old(grid).cur()[j][i]),
{
    let (x, y) = point;
    grid.set_hline(x, 3, y, true)
}

/// The cells of a toad oscillator anchored at `(x, y)`.
pub open spec fn toad_cells(x: int, y: int, i: int, j: int) -> bool {
    ||| (j == y && x + 1 <= i <= x + 3)
    ||| (j == y + 1 && x <= i <= x + 2)
}

/// Stamp a toad oscillator.
pub fn toad<G: Grid>(grid: &mut G, point: GridPoint) -> (r: BResult<()>)
    requires
        grid_inv(old(grid)),
        point.0 as int + 4 <= 0x10000,
        point.1 as int + 2 <= 0x10000,
    ensures
        grid_inv(final(grid)),
        same_but_cur(*old(grid), *final(grid)),
        r is Ok <==> (point.0 as int + 4 <= old(grid).spec_width() && point.1 as int + 2 <= old(
            grid,
        ).spec_height()),
        r is Ok ==> forall|i: int, j: int|
            0 <= i < old(grid).spec_width() && 0 <= j < old(grid).spec_height()
                ==> #[trigger] final(grid).cur()[j][i] == (toad_cells(
                point.0 as int,
                point.1 as int,
                i,
                j,
            ) || old(grid).cur()[j][i]),
{
    let (x, y) = point;
    grid.set_hline(x + 1, 3, y, true)?;
    grid.set_hline(x, 3, y + 1, true)
}

/// The cells of a beacon oscillator anchored at `(x, y)`: two blocks
/// touching corner to corner.
pub open spec fn beacon_cells(x: int, y: int, i: int, j: int) -> bool {
    block_cells(x, y, i, j) || block_cells(x + 2, y + 2, i, j)
}

/// Stamp a beacon oscillator.
pub fn beacon<G: Grid>(grid: &mut G, point: GridPoint) -> (r: BResult<()>)
    requires
        grid_inv(old(grid)),
        point.0 as int + 4 <= 0x10000,
        point.1 as int + 4 <= 0x10000,
    ensures
        grid_inv(final(grid)),
        same_but_cur(*old(grid), *final(grid)),
        r is Ok <==> (point.0 as int + 4 <= old(grid).spec_width() && point.1 as int + 4 <= old(
            grid,
        ).spec_height()),
        r is Ok ==> forall|i: int, j: int|
            0 <= i < old(grid).spec_width() && 0 <= j < old(grid).spec_height()
                ==> #[trigger] final(grid).cur()[j][i] == (beacon_cells(
                point.0 as int,
                point.1 as int,
                i,
                j,
            ) || old(grid).cur()[j][i]),
{
    let (x, y) = point;
    block(grid, (x, y))?;
    block(grid, (x + 2, y + 2))
}

/// The cells of a pulsar oscillator anchored at `(x, y)`: four
/// three-cell arms on each side of a thirteen-by-thirteen cross.
pub open spec fn pulsar_cells(x: int, y: int, i: int, j: int) -> bool {
    ||| ((j == y || j == y + 5 || j == y + 7 || j == y + 12) && (x + 2 <= i <= x + 4 || x + 8 <= i
        <= x + 10))
    ||| ((i == x || i == x + 5 || i == x + 7 || i == x + 12) && (y + 2 <= j <= y + 4 || y + 8 <= j
        <= y + 10))
}

/// Stamp a pulsar oscillator.
pub fn pulsar<G: Grid>(grid: &mut G, point: GridPoint) -> (r: BResult<()>)
    requires
        grid_inv(old(grid)),
        point.0 as int + 13 <= 0x10000,
        point.1 as int + 13 <= 0x10000,
    ensures
        grid_inv(final(grid)),
        same_but_cur(*old(grid), *final(grid)),
        r is Ok <==> (point.0 as int + 13 <= old(grid).spec_width() && point.1 as int + 13 <= old(
            grid,
        ).spec_height()),
        r is Ok ==> forall|i: int, j: int|
            0 <= i < old(grid).spec_width() && 0 <= j < old(grid).spec_height()
                ==> #[trigger] final(grid).cur()[j][i] == (pulsar_cells(
                point.0 as int,
                point.1 as int,
                i,
                j,
            ) || old(grid).cur()[j][i]),
{
    let (x, y) = point;
    let length: crate::GridUnit = 3;

    grid.set_hline(x + 2, length, y, true)?;
    grid.set_hline(x + 2, length, y + 5, true)?;
    grid.set_hline(x + 2, length, y + 7, true)?;
    grid.set_hline(x + 2, length, y + 12, true)?;

    grid.set_hline(x + 8, length, y, true)?;
    grid.set_hline(x + 8, length, y + 5, true)?;
    grid.set_hline(x + 8, length, y + 7, true)?;
    grid.set_hline(x + 8, length, y + 12, true)?;

    grid.set_vline(y + 2, length, x, true)?;
    grid.set_vline(y + 2, length, x + 5, true)?;
    grid.set_vline(y + 2, length, x + 7, true)?;
    grid.set_vline(y + 2, length, x + 12, true)?;

    grid.set_vline(y + 8, length, x, true)?;
    grid.set_vline(y + 8, length, x + 5, true)?;
    grid.set_vline(y + 8, length, x + 7, true)?;
    grid.set_vline(y + 8, length, x + 12, true)
}

/// The live cells of a penta-decathlon anchored at `(x, y)`: a
/// ten-cell column with its second and seventh cells pushed out to
/// the sides.
pub open spec fn penta_decathlon_cells(x: int, y: int, i: int, j: int) -> bool {
    ||| (i == x + 1 && y <= j <= y + 9 && j != y + 2 && j != y + 7)
    ||| ((j == y + 2 || j == y + 7) && (i == x || i == x + 2))
}

/// The two cells of the column that the penta-decathlon stamp clears
/// again after drawing its lines.
pub open spec fn penta_decathlon_holes(x: int, y: int, i: int, j: int) -> bool {
    i == x + 1 && (j == y + 2 || j == y + 7)
}

/// Stamp a penta-decathlon oscillator.
pub fn penta_decathlon<G: Grid>(grid: &mut G, point: GridPoint) -> (r: BResult<()>)
    requires
        grid_inv(old(grid)),
        point.0 as int + 3 <= 0x10000,
        point.1 as int + 10 <= 0x10000,
    ensures
        grid_inv(final(grid)),
        same_but_cur(*old(grid), *final(grid)),
        r is Ok <==> (point.0 as int + 3 <= old(grid).spec_width() && point.1 as int + 10 <= old(
            grid,
        ).spec_height()),
        r is Ok ==> forall|i: int, j: int|
            0 <= i < old(grid).spec_width() && 0 <= j < old(grid).spec_height()
                ==> #[trigger] final(grid).cur()[j][i] == (if penta_decathlon_holes(
                point.0 as int,
                point.1 as int,
                i,
                j,
            ) {
                false
            } else {
                penta_decathlon_cells(point.0 as int, point.1 as int, i, j) || old(
                    grid,
                ).cur()[j][i]
            }),
{
    let (x, y) = point;
    grid.set_vline(y, 10, x + 1, true)?;
    grid.set_hline(x, 3, y + 2, true)?;
    grid.set_hline(x, 3, y + 7, true)?;

    grid.set_cell((x + 1, y + 2), false)?;
    grid.set_cell((x + 1, y + 7), false)
}

/// The cells of a glider anchored at `(x, y)`.
pub open spec fn glider_cells(x: int, y: int, i: int, j: int) -> bool {
    ||| (j == y && i == x + 1)
    ||| (j == y + 1 && i == x + 2)
    ||| (j == y + 2 && x <= i <= x + 2)
}

/// Stamp a glider, the smallest spaceship.
pub fn glider<G: Grid>(grid: &mut G, point: GridPoint) -> (r: BResult<()>)
    requires
        grid_inv(old(grid)),
        point.0 as int + 3 <= 0x10000,
        point.1 as int + 3 <= 0x10000,
    ensures
        grid_inv(final(grid)),
        same_but_cur(*old(grid), *final(grid)),
        r is Ok <==> (point.0 as int + 3 <= old(grid).spec_width() && point.1 as int + 3 <= old(
            grid,
        ).spec_height()),
        r is Ok ==> forall|i: int, j: int|
            0 <= i < old(grid).spec_width() && 0 <= j < old(grid).spec_height()
                ==> #[trigger] final(grid).cur()[j][i] == (glider_cells(
                point.0 as int,
                point.1 as int,
                i,
                j,
            ) || old(grid).cur()[j][i]),
{
    let (x, y) = point;
    grid.set_cell((x + 1, y), true)?;
    grid.set_cell((x + 2, y + 1), true)?;
    grid.set_hline(x, 3, y + 2, true)
}

/// The cells of a lightweight spaceship anchored at `(x, y)`.
pub open spec fn lwss_cells(x: int, y: int, i: int, j: int) -> bool {
    ||| (j == y && (i == x + 1 || i == x + 4))
    ||| (j == y + 2 && i == x + 4)
    ||| (i == x && y + 1 <= j <= y + 2)
    ||| (j == y + 3 && x <= i <= x + 3)
}

/// Stamp a lightweight spaceship.
pub fn lwss<G: Grid>(grid: &mut G, point: GridPoint) -> (r: BResult<()>)
    requires
        grid_inv(old(grid)),
        point.0 as int + 5 <= 0x10000,
        point.1 as int + 4 <= 0x10000,
    ensures
        grid_inv(final(grid)),
        same_but_cur(*old(grid), *final(grid)),
        r is Ok <==> (point.0 as int + 5 <= old(grid).spec_width() && point.1 as int + 4 <= old(
            grid,
        ).spec_height()),
        r is Ok ==> forall|i: int, j: int|
            0 <= i < old(grid).spec_width() && 0 <= j < old(grid).spec_height()
                ==> #[trigger] final(grid).cur()[j][i] == (lwss_cells(
                point.0 as int,
                point.1 as int,
                i,
                j,
            ) || old(grid).cur()[j][i]),
{
    let (x, y) = point;
    grid.set_cell((x + 1, y), true)?;
    grid.set_cell((x + 4, y), true)?;
    grid.set_cell((x + 4, y + 2), true)?;
    grid.set_vline(y + 1, 2, x, true)?;
    grid.set_hline(x, 4, y + 3, true)
}

/// The cells of a middleweight spaceship anchored at `(x, y)`.
pub open spec fn mwss_cells(x: int, y: int, i: int, j: int) -> bool {
    ||| (j == y && i == x + 3)
    ||| (j == y + 1 && (i == x + 1 || i == x + 5))
    ||| (j == y + 3 && i == x + 5)
    ||| (i == x && y + 2 <= j <= y + 3)
    ||| (j == y + 4 && x <= i <= x + 4)
}

/// Stamp a middleweight spaceship.
pub fn mwss<G: Grid>(grid: &mut G, point: GridPoint) -> (r: BResult<()>)
    requires
        grid_inv(old(grid)),
        point.0 as int + 6 <= 0x10000,
        point.1 as int + 5 <= 0x10000,
    ensures
        grid_inv(final(grid)),
        same_but_cur(*old(grid), *final(grid)),
        r is Ok <==> (point.0 as int + 6 <= old(grid).spec_width() && point.1 as int + 5 <= old(
            grid,
        ).spec_height()),
        r is Ok ==> forall|i: int, j: int|
            0 <= i < old(grid).spec_width() && 0 <= j < old(grid).spec_height()
                ==> #[trigger] final(grid).cur()[j][i] == (mwss_cells(
                point.0 as int,
                point.1 as int,
                i,
                j,
            ) || old(grid).cur()[j][i]),
{
    let (x, y) = point;
    grid.set_cell((x + 3, y), true)?;
    grid.set_cell((x + 1, y + 1), true)?;
    grid.set_cell((x + 5, y + 1), true)?;
    grid.set_cell((x + 5, y + 3), true)?;
    grid.set_vline(y + 2, 2, x, true)?;
    grid.set_hline(x, 5, y + 4, true)
}

/// The cells of a heavyweight spaceship anchored at `(x, y)`.
pub open spec fn hwss_cells(x: int, y: int, i: int, j: int) -> bool {
    ||| (j == y && x + 3 <= i <= x + 4)
    ||| (j == y + 1 && (i == x + 1 || i == x + 6))
    ||| (j == y + 3 && i == x + 6)
    ||| (i == x && y + 2 <= j <= y + 3)
    ||| (j == y + 4 && x <= i <= x + 5)
}

/// Stamp a heavyweight spaceship.
pub fn hwss<G: Grid>(grid: &mut G, point: GridPoint) -> (r: BResult<()>)
    requires
        grid_inv(old(grid)),
        point.0 as int + 7 <= 0x10000,
        point.1 as int + 5 <= 0x10000,
    ensures
        grid_inv(final(grid)),
        same_but_cur(*old(grid), *final(grid)),
        r is Ok <==> (point.0 as int + 7 <= old(grid).spec_width() && point.1 as int + 5 <= old(
            grid,
        ).spec_height()),
        r is Ok ==> forall|i: int, j: int|
            0 <= i < old(grid).spec_width() && 0 <= j < old(grid).spec_height()
                ==> #[trigger] final(grid).cur()[j][i] == (hwss_cells(
                point.0 as int,
                point.1 as int,
                i,
                j,
            ) || old(grid).cur()[j][i]),
{
    let (x, y) = point;
    grid.set_hline(x + 3, 2, y, true)?;
    grid.set_cell((x + 1, y + 1), true)?;
    grid.set_cell((x + 6, y + 1), true)?;
    grid.set_cell((x + 6, y + 3), true)?;
    grid.set_vline(y + 2, 2, x, true)?;
    grid.set_hline(x, 6, y + 4, true)
}

/// The cells of the showcase: every pattern of this library at a
/// fixed position.
pub open spec fn test_cells(i: int, j: int) -> bool {
    ||| block_cells(1, 1, i, j)
    ||| bee_hive_cells(5, 1, i, j)
    ||| loaf_cells(11, 1, i, j)
    ||| boat_cells(17, 1, i, j)
    ||| tub_cells(22, 1, i, j)
    ||| blinker_cells(28, 1, i, j)
    ||| toad_cells(32, 1, i, j)
    ||| beacon_cells(38, 1, i, j)
    ||| pulsar_cells(45, 1, i, j)
    ||| penta_decathlon_cells(64, 3, i, j)
    ||| lwss_cells(26, 10, i, j)
    ||| mwss_cells(35, 7, i, j)
    ||| hwss_cells(35, 14, i, j)
}

/// Stamp one of every pattern at a fixed position: a showcase grid.
pub fn test<G: Grid>(grid: &mut G) -> (r: BResult<()>)
    requires
        grid_inv(old(grid)),
    ensures
        grid_inv(final(grid)),
        same_but_cur(*old(grid), *final(grid)),
        r is Ok <==> (67 <= old(grid).spec_width() && 19 <= old(grid).spec_height()),
        r is Ok ==> forall|i: int, j: int|
            0 <= i < old(grid).spec_width() && 0 <= j < old(grid).spec_height()
                ==> #[trigger] final(grid).cur()[j][i] == (if penta_decathlon_holes(64, 3, i, j) {
                false
            } else {
                test_cells(i, j) || old(grid).cur()[j][i]
            }),
{
    block(grid, (1, 1))?;
    bee_hive(grid, (5, 1))?;
    loaf(grid, (11, 1))?;
    boat(grid, (17, 1))?;
    tub(grid, (22, 1))?;
    blinker(grid, (28, 1))?;
    toad(grid, (32, 1))?;
    beacon(grid, (38, 1))?;
    pulsar(grid, (45, 1))?;
    penta_decathlon(grid, (64, 3))?;
    lwss(grid, (26, 10))?;
    mwss(grid, (35, 7))?;
    hwss(grid, (35, 14))
}

} // verus!
