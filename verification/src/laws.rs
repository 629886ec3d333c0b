//! Laws of the simulation core, stated over the same models that the
//! executable functions' contracts use: writing and reading cells,
//! fixed points and oscillators of the generation step, toroidal
//! adjacency at the corners, and the degenerate run.

use vstd::prelude::*;

use crate::rules;
use crate::rules::{
    axis_window, cell_at, gen_wf, live_in_row, live_in_window, live_neighbors, next_cell,
    point_in_bounds, run_applied, run_cell, run_fits, run_first_bad, set_one, stamp_run, step_gen,
};

verus! {

/// Writing a cell and reading it back: immediately after the cell at
/// `(x, y)` is set live, reading it gives a live cell, and reading
/// any out-of-range point still gives a dead cell, whatever the grid
/// held before.
pub proof fn lemma_set_then_get(g: Seq<Seq<bool>>, w: int, h: int, x: int, y: int)
    requires
        gen_wf(g, w, h),
        w >= 3,
        h >= 3,
        point_in_bounds(x, y, w, h),
    ensures
        cell_at(set_one(g, x, y, true), w, h, x, y),
        forall|qx: int, qy: int|
            !point_in_bounds(qx, qy, w, h) ==> !cell_at(set_one(g, x, y, true), w, h, qx, qy),
{
}

/// An all-dead grid is a fixed point of the generation step: every
/// neighbor count is zero, so every cell stays dead, at any size.
pub proof fn lemma_step_all_dead(g: Seq<Seq<bool>>, w: int, h: int)
    requires
        gen_wf(g, w, h),
        forall|i: int, j: int| 0 <= i < w && 0 <= j < h ==> !#[trigger] g[j][i],
    ensures
        forall|i: int, j: int| 0 <= i < w && 0 <= j < h ==> !#[trigger] step_gen(g, w, h)[j][i],
        step_gen(g, w, h) =~~= g,
{
    assert forall|i: int, j: int| 0 <= i < w && 0 <= j < h implies !#[trigger] step_gen(
        g,
        w,
        h,
    )[j][i] by {
        lemma_window_in_range_dead(g, w, h, axis_window(j, h), axis_window(i, w), i, j);
        assert(live_neighbors(g, w, h, i, j) == 0);
    }
    assert forall|j: int| 0 <= j < h implies step_gen(g, w, h)[j] =~= g[j] by {}
    assert(step_gen(g, w, h) =~~= g);
}

/// A window scan over in-range coordinates of an all-dead grid finds
/// no live cells.
proof fn lemma_window_in_range_dead(
    g: Seq<Seq<bool>>,
    w: int,
    h: int,
    rows: Seq<int>,
    cols: Seq<int>,
    cx: int,
    cy: int,
)
    requires
        forall|i: int, j: int| 0 <= i < w && 0 <= j < h ==> !#[trigger] g[j][i],
        forall|k: int| 0 <= k < rows.len() ==> 0 <= #[trigger] rows[k] < h,
        forall|k: int| 0 <= k < cols.len() ==> 0 <= #[trigger] cols[k] < w,
    ensures
        live_in_window(g, rows, cols, cx, cy) == 0,
    decreases rows.len(),
{
    if rows.len() > 0 {
        lemma_row_in_range_dead(g, w, h, rows[0], cols, cx, cy);
        assert forall|k: int| 0 <= k < rows.drop_first().len() implies 0 <= #[trigger] rows.drop_first()[k] < h by {
            assert(rows.drop_first()[k] == rows[k + 1]);
        }
        lemma_window_in_range_dead(g, w, h, rows.drop_first(), cols, cx, cy);
    }
}

/// A row scan over in-range coordinates of an all-dead grid finds no
/// live cells.
proof fn lemma_row_in_range_dead(
    g: Seq<Seq<bool>>,
    w: int,
    h: int,
    j: int,
    cols: Seq<int>,
    cx: int,
    cy: int,
)
    requires
        forall|i: int, jj: int| 0 <= i < w && 0 <= jj < h ==> !#[trigger] g[jj][i],
        0 <= j < h,
        forall|k: int| 0 <= k < cols.len() ==> 0 <= #[trigger] cols[k] < w,
    ensures
        live_in_row(g, j, cols, cx, cy) == 0,
    decreases cols.len(),
{
    if cols.len() > 0 {
        assert(!g[j][cols[0]]);
        assert forall|k: int| 0 <= k < cols.drop_first().len() implies 0 <= #[trigger] cols.drop_first()[k] < w by {
            assert(cols.drop_first()[k] == cols[k + 1]);
        }
        lemma_row_in_range_dead(g, w, h, j, cols.drop_first(), cx, cy);
    }
}

/// A two-by-two block of live cells away from the grid's edges, with
/// every other cell dead, is a still life: one generation step leaves
/// the whole grid unchanged.
pub proof fn lemma_block_still_life(g: Seq<Seq<bool>>, w: int, h: int, bx: int, by: int)
    requires
        gen_wf(g, w, h),
        1 <= bx,
        bx + 2 <= w - 1,
        1 <= by,
        by + 2 <= h - 1,
        forall|i: int, j: int|
            0 <= i < w && 0 <= j < h ==> #[trigger] g[j][i] == crate::config::block_cells(
                bx,
                by,
                i,
                j,
            ),
    ensures
        step_gen(g, w, h) =~~= g,
{
    assert forall|i: int, j: int| 0 <= i < w && 0 <= j < h implies #[trigger] step_gen(
        g,
        w,
        h,
    )[j][i] == g[j][i] by {
        rules::lemma_live_neighbors_eight(g, w, h, i, j);
    }
    assert forall|j: int| 0 <= j < h implies step_gen(g, w, h)[j] =~= g[j] by {}
    assert(step_gen(g, w, h) =~~= g);
}

/// The cells of a horizontal blinker centered at `(cx, cy)`.
pub open spec fn blinker_horizontal(cx: int, cy: int, i: int, j: int) -> bool {
    j == cy && cx - 1 <= i <= cx + 1
}

/// The cells of a vertical blinker centered at `(cx, cy)`.
pub open spec fn blinker_vertical(cx: int, cy: int, i: int, j: int) -> bool {
    i == cx && cy - 1 <= j <= cy + 1
}

/// One step turns a horizontal blinker away from the edges into the
/// vertical blinker with the same center, on an otherwise dead grid.
pub proof fn lemma_blinker_flips_to_vertical(g: Seq<Seq<bool>>, w: int, h: int, cx: int, cy: int)
    requires
        gen_wf(g, w, h),
        2 <= cx <= w - 3,
        2 <= cy <= h - 3,
        forall|i: int, j: int|
            0 <= i < w && 0 <= j < h ==> #[trigger] g[j][i] == blinker_horizontal(cx, cy, i, j),
    ensures
        forall|i: int, j: int|
            0 <= i < w && 0 <= j < h ==> #[trigger] step_gen(g, w, h)[j][i] == blinker_vertical(
                cx,
                cy,
                i,
                j,
            ),
{
    assert forall|i: int, j: int| 0 <= i < w && 0 <= j < h implies #[trigger] step_gen(
        g,
        w,
        h,
    )[j][i] == blinker_vertical(cx, cy, i, j) by {
        rules::lemma_live_neighbors_eight(g, w, h, i, j);
    }
}

/// One step turns a vertical blinker away from the edges into the
/// horizontal blinker with the same center, on an otherwise dead
/// grid.
pub proof fn lemma_blinker_flips_to_horizontal(g: Seq<Seq<bool>>, w: int, h: int, cx: int, cy: int)
    requires
        gen_wf(g, w, h),
        2 <= cx <= w - 3,
        2 <= cy <= h - 3,
        forall|i: int, j: int|
            0 <= i < w && 0 <= j < h ==> #[trigger] g[j][i] == blinker_vertical(cx, cy, i, j),
    ensures
        forall|i: int, j: int|
            0 <= i < w && 0 <= j < h ==> #[trigger] step_gen(g, w, h)[j][i] == blinker_horizontal(
                cx,
                cy,
                i,
                j,
            ),
{
    assert forall|i: int, j: int| 0 <= i < w && 0 <= j < h implies #[trigger] step_gen(
        g,
        w,
        h,
    )[j][i] == blinker_horizontal(cx, cy, i, j) by {
        rules::lemma_live_neighbors_eight(g, w, h, i, j);
    }
}

/// A blinker oscillates with period two: two steps return a
/// horizontal blinker, away from the edges on an otherwise dead grid,
/// to exactly its original configuration.
pub proof fn lemma_blinker_period_two(g: Seq<Seq<bool>>, w: int, h: int, cx: int, cy: int)
    requires
        gen_wf(g, w, h),
        2 <= cx <= w - 3,
        2 <= cy <= h - 3,
        forall|i: int, j: int|
            0 <= i < w && 0 <= j < h ==> #[trigger] g[j][i] == blinker_horizontal(cx, cy, i, j),
    ensures
        step_gen(step_gen(g, w, h), w, h) =~~= g,
{
    lemma_blinker_flips_to_vertical(g, w, h, cx, cy);
    let g1 = step_gen(g, w, h);
    lemma_blinker_flips_to_horizontal(g1, w, h, cx, cy);
    let g2 = step_gen(g1, w, h);
    assert forall|j: int| 0 <= j < h implies g2[j] =~= g[j] by {
        assert forall|i: int| 0 <= i < w implies g2[j][i] == g[j][i] by {}
    }
    assert(g2 =~~= g);
}

/// Toroidal adjacency at the origin: with the three far corners live
/// and the five other neighbors of `(0, 0)` dead, the corner cell
/// counts exactly three live neighbors, so a dead origin is born.
pub proof fn lemma_corner_wraparound(g: Seq<Seq<bool>>, w: int, h: int)
    requires
        gen_wf(g, w, h),
        w >= 3,
        h >= 3,
        g[h - 1][w - 1],
        g[0][w - 1],
        g[h - 1][0],
        !g[0][1],
        !g[1][0],
        !g[1][1],
        !g[h - 1][1],
        !g[1][w - 1],
    ensures
        live_neighbors(g, w, h, 0, 0) == 3,
        next_cell(g, w, h, 0, 0),
{
    rules::lemma_live_neighbors_eight(g, w, h, 0, 0);
}

/// A run of length one behaves exactly as a single `set_cell` of the
/// run's one cell: it fits precisely when that cell is in range, in
/// which case it stamps exactly that cell; otherwise it stamps
/// nothing and reports that cell as the offender.
pub proof fn lemma_run_length_one(
    g: Seq<Seq<bool>>,
    w: int,
    h: int,
    horiz: bool,
    start: int,
    other: int,
    b: bool,
)
    requires
        gen_wf(g, w, h),
        start >= 0,
        other >= 0,
    ensures
        run_fits(horiz, start, other, 1, w, h) <==> point_in_bounds(
            run_cell(horiz, start, other, 0).0,
            run_cell(horiz, start, other, 0).1,
            w,
            h,
        ),
        run_fits(horiz, start, other, 1, w, h) ==> stamp_run(
            g,
            horiz,
            start,
            other,
            run_applied(horiz, start, other, 1, w, h),
            b,
        ) =~~= set_one(g, run_cell(horiz, start, other, 0).0, run_cell(horiz, start, other, 0).1, b),
        !run_fits(horiz, start, other, 1, w, h) ==> stamp_run(
            g,
            horiz,
            start,
            other,
            run_applied(horiz, start, other, 1, w, h),
            b,
        ) =~~= g && run_first_bad(horiz, start, other, 1, w, h) == run_cell(horiz, start, other, 0),
{
    if run_fits(horiz, start, other, 1, w, h) {
        rules::lemma_stamp_run_zero(g, horiz, start, other, b);
        rules::lemma_stamp_run_step(g, horiz, start, other, 0, b);
        assert(set_one(stamp_run(g, horiz, start, other, 0, b), run_cell(horiz, start, other, 0).0,
            run_cell(horiz, start, other, 0).1, b) =~~= stamp_run(g, horiz, start, other, 1, b));
        assert(stamp_run(g, horiz, start, other, 0, b) == g);
        assert(run_applied(horiz, start, other, 1, w, h) == 1);
    } else {
        rules::lemma_stamp_run_zero(g, horiz, start, other, b);
        assert(run_applied(horiz, start, other, 1, w, h) == 0);
    }
}

} // verus!
