//! The next-state algorithm: wraparound neighbor counting for edge
//! cells, a branch-free interior path, and the full scratch-buffer
//! pass of one generation step.

use vstd::prelude::*;

use crate::grid::{gens_wf, GridPrivate};
use crate::rules;
use crate::{GridPoint, GridUnit};

verus! {

/// The distinct axis coordinates within wrapping distance one of `v`
/// on an axis of length `n`, matching `rules::axis_window`.
fn axis_window_exec(v: GridUnit, n: GridUnit) -> (win: Vec<GridUnit>)
    requires
        v < n,
    ensures
        win@.map_values(|c: GridUnit| c as int) =~= rules::axis_window(v as int, n as int),
        forall|k: int| 0 <= k < win@.len() ==> win@[k] < n,
{
    let p: GridUnit = if v == 0 {
        n - 1
    } else {
        v - 1
    };
    let q: GridUnit = if v == n - 1 {
        0
    } else {
        v + 1
    };
    let mut win: Vec<GridUnit> = Vec::new();
    if p == v {
        win.push(v);
    } else if p == q {
        win.push(p);
        win.push(v);
    } else {
        win.push(p);
        win.push(v);
        win.push(q);
    }
    win
}

/// The next state of the cell at `point`, computed with wraparound
/// neighbor coordinates: the path taken for cells on the grid's edge,
/// where the toroidal topology makes the opposite edge adjacent.
#[verifier::loop_isolation(false)]
pub fn next_cell_state_individual<G: GridPrivate>(grid: &G, point: GridPoint) -> (b: bool)
    requires
        grid.inv(),
        gens_wf(grid.spec_width(), grid.spec_height(), grid.cur(), grid.nxt()),
        rules::point_in_bounds(
            point.0 as int,
            point.1 as int,
            grid.spec_width(),
            grid.spec_height(),
        ),
    ensures
        b == rules::next_cell(
            grid.cur(),
            grid.spec_width(),
            grid.spec_height(),
            point.0 as int,
            point.1 as int,
        ),
{
    let size = grid._size();
    let cols = axis_window_exec(point.0, size.0);
    let rows = axis_window_exec(point.1, size.1);
    let ghost g = grid.cur();
    let ghost cols_s = rules::axis_window(point.0 as int, size.0 as int);
    let ghost rows_s = rules::axis_window(point.1 as int, size.1 as int);
    let ghost cx = point.0 as int;
    let ghost cy = point.1 as int;
    let ghost total = rules::live_neighbors(g, grid.spec_width(), grid.spec_height(), cx, cy);
    proof {
        lemma_live_in_window_le(g, rows_s, cols_s, cx, cy);
        assert(rows_s.len() * cols_s.len() <= 9) by (nonlinear_arith)
            requires
                0 <= rows_s.len() <= 3,
                0 <= cols_s.len() <= 3,
        ;
        assert(rows_s.skip(0) =~= rows_s);
    }
    let mut counter: u8 = 0;
    let mut ri: usize = 0;
    while ri < rows.len()
        invariant
            0 <= ri <= rows@.len(),
            counter + rules::live_in_window(g, rows_s.skip(ri as int), cols_s, cx, cy) == total,
            counter <= 9,
        decreases rows@.len() - ri,
    {
        let j = rows[ri];
        proof {
            lemma_live_in_window_suffix_step(g, rows_s, cols_s, cx, cy, ri as int);
            lemma_live_in_row_le(g, j as int, cols_s, cx, cy);
            assert(cols_s.skip(0) =~= cols_s);
        }
        let ghost entry_counter = counter;
        let mut ci: usize = 0;
        while ci < cols.len()
            invariant
                0 <= ci <= cols@.len(),
                counter + rules::live_in_row(g, j as int, cols_s.skip(ci as int), cx, cy)
                    == entry_counter + rules::live_in_row(g, j as int, cols_s, cx, cy),
                counter <= 12,
            decreases cols@.len() - ci,
        {
            let c = cols[ci];
            proof {
                lemma_live_in_row_suffix_step(g, j as int, cols_s, cx, cy, ci as int);
            }
            if (c != point.0 || j != point.1) && grid.get_cell_unchecked((c, j)) {
                counter = counter + 1;
            }
            ci = ci + 1;
        }
        proof {
            assert(cols_s.skip(cols_s.len() as int) =~= Seq::<int>::empty());
        }
        ri = ri + 1;
    }
    proof {
        assert(rows_s.skip(rows_s.len() as int) =~= Seq::<int>::empty());
    }
    let alive = grid.get_cell_unchecked(point);
    counter == 3 || (counter == 2 && alive)
}

/// One full pass of the next-state computation: every cell of the
/// scratch buffer is written with the next state of its counterpart in
/// the settled current generation, which is never mutated.  Interior
/// cells take a fast path of eight direct reads; cells on the grid's
/// edge take the wraparound path.
#[verifier::loop_isolation(false)]
pub fn set_next_state<G: GridPrivate>(grid: &mut G)
    requires
        old(grid).inv(),
        gens_wf(
            old(grid).spec_width(),
            old(grid).spec_height(),
            old(grid).cur(),
            old(grid).nxt(),
        ),
        old(grid).spec_width() >= 1,
        old(grid).spec_height() >= 1,
    ensures
        final(grid).inv(),
        gens_wf(
            final(grid).spec_width(),
            final(grid).spec_height(),
            final(grid).cur(),
            final(grid).nxt(),
        ),
        crate::grid::same_but_nxt(*old(grid), *final(grid)),
        final(grid).nxt() =~~= rules::step_gen(
            old(grid).cur(),
            old(grid).spec_width(),
            old(grid).spec_height(),
        ),
{
    let ghost g0 = grid.cur();
    let ghost w = grid.spec_width();
    let ghost h = grid.spec_height();
    let size = grid._size();
    let x_max: GridUnit = size.0 - 1;
    let y_max: GridUnit = size.1 - 1;
    let mut y: GridUnit = 1;
    while y < y_max
        invariant
            1 <= y <= if y_max >= 1 { y_max } else { 1 },
            grid.inv(),
            gens_wf(w, h, g0, grid.nxt()),
            crate::grid::same_but_nxt(*old(grid), *grid),
            forall|jj: int, ii: int|
                1 <= jj < y && 1 <= ii < w - 1 ==> #[trigger] grid.nxt()[jj][ii]
                    == rules::next_cell(g0, w, h, ii, jj),
        decreases y_max - y,
    {
        let mut x: GridUnit = 1;
        while x < x_max
            invariant
                1 <= x <= if x_max >= 1 { x_max } else { 1 },
                grid.inv(),
                gens_wf(w, h, g0, grid.nxt()),
                crate::grid::same_but_nxt(*old(grid), *grid),
                forall|jj: int, ii: int|
                    1 <= jj < y && 1 <= ii < w - 1 ==> #[trigger] grid.nxt()[jj][ii]
                        == rules::next_cell(g0, w, h, ii, jj),
                forall|ii: int|
                    1 <= ii < x ==> #[trigger] grid.nxt()[y as int][ii] == rules::next_cell(
                        g0,
                        w,
                        h,
                        ii,
                        y as int,
                    ),
            decreases x_max - x,
        {
            let mut counter: u8 = 0;
            if grid.get_cell_unchecked((x - 1, y - 1)) {
                counter += 1;
            }
            if grid.get_cell_unchecked((x, y - 1)) {
                counter += 1;
            }
            if grid.get_cell_unchecked((x + 1, y - 1)) {
                counter += 1;
            }
            if grid.get_cell_unchecked((x - 1, y)) {
                counter += 1;
            }
            if grid.get_cell_unchecked((x + 1, y)) {
                counter += 1;
            }
            if grid.get_cell_unchecked((x - 1, y + 1)) {
                counter += 1;
            }
            if grid.get_cell_unchecked((x, y + 1)) {
                counter += 1;
            }
            if grid.get_cell_unchecked((x + 1, y + 1)) {
                counter += 1;
            }
            let center = grid.get_cell_unchecked((x, y));
            let next = counter == 3 || (counter == 2 && center);
            proof {
                rules::lemma_live_neighbors_interior(g0, w, h, x as int, y as int);
            }
            *grid._get_next_cell_unchecked_mut((x, y)) = next;
            x += 1;
        }
        y += 1;
    }
    let mut x: GridUnit = 0;
    while x < size.0
        invariant
            0 <= x <= size.0,
            grid.inv(),
            gens_wf(w, h, g0, grid.nxt()),
            crate::grid::same_but_nxt(*old(grid), *grid),
            forall|jj: int, ii: int|
                1 <= jj < h - 1 && 1 <= ii < w - 1 ==> #[trigger] grid.nxt()[jj][ii]
                    == rules::next_cell(g0, w, h, ii, jj),
            forall|ii: int|
                0 <= ii < x ==> #[trigger] grid.nxt()[0][ii] == rules::next_cell(g0, w, h, ii, 0),
            forall|ii: int|
                0 <= ii < x ==> #[trigger] grid.nxt()[y_max as int][ii] == rules::next_cell(
                    g0,
                    w,
                    h,
                    ii,
                    y_max as int,
                ),
        decreases size.0 - x,
    {
        let top = next_cell_state_individual(&*grid, (x, 0));
        *grid._get_next_cell_unchecked_mut((x, 0)) = top;
        let bottom = next_cell_state_individual(&*grid, (x, y_max));
        *grid._get_next_cell_unchecked_mut((x, y_max)) = bottom;
        x += 1;
    }
    let mut y: GridUnit = 1;
    while y < y_max
        invariant
            1 <= y <= if y_max >= 1 { y_max } else { 1 },
            grid.inv(),
            gens_wf(w, h, g0, grid.nxt()),
            crate::grid::same_but_nxt(*old(grid), *grid),
            forall|jj: int, ii: int|
                1 <= jj < h - 1 && 1 <= ii < w - 1 ==> #[trigger] grid.nxt()[jj][ii]
                    == rules::next_cell(g0, w, h, ii, jj),
            forall|ii: int|
                0 <= ii < w ==> #[trigger] grid.nxt()[0][ii] == rules::next_cell(g0, w, h, ii, 0),
            forall|ii: int|
                0 <= ii < w ==> #[trigger] grid.nxt()[y_max as int][ii] == rules::next_cell(
                    g0,
                    w,
                    h,
                    ii,
                    y_max as int,
                ),
            forall|jj: int|
                1 <= jj < y ==> #[trigger] grid.nxt()[jj][0] == rules::next_cell(g0, w, h, 0, jj),
            forall|jj: int|
                1 <= jj < y ==> #[trigger] grid.nxt()[jj][x_max as int] == rules::next_cell(
                    g0,
                    w,
                    h,
                    x_max as int,
                    jj,
                ),
        decreases y_max - y,
    {
        let left = next_cell_state_individual(&*grid, (0, y));
        *grid._get_next_cell_unchecked_mut((0, y)) = left;
        let right = next_cell_state_individual(&*grid, (x_max, y));
        *grid._get_next_cell_unchecked_mut((x_max, y)) = right;
        y += 1;
    }
    proof {
        let gn = grid.nxt();
        let stepped = rules::step_gen(g0, w, h);
        assert forall|jj: int, ii: int| 0 <= jj < h && 0 <= ii < w implies #[trigger] gn[jj][ii]
            == rules::next_cell(g0, w, h, ii, jj) by {
            if jj == 0 || jj == h - 1 {
            } else if ii == 0 || ii == w - 1 {
            } else {
            }
        }
        assert forall|jj: int| 0 <= jj < h implies gn[jj] =~= #[trigger] stepped[jj] by {}
        assert(gn =~~= stepped);
    }
}

/// A row scan counts at most one live cell per column it examines.
proof fn lemma_live_in_row_le(g: Seq<Seq<bool>>, j: int, cols: Seq<int>, cx: int, cy: int)
    ensures
        rules::live_in_row(g, j, cols, cx, cy) <= cols.len(),
    decreases cols.len(),
{
    if cols.len() > 0 {
        lemma_live_in_row_le(g, j, cols.drop_first(), cx, cy);
    }
}

/// A window scan counts at most one live cell per position it
/// examines.
proof fn lemma_live_in_window_le(
    g: Seq<Seq<bool>>,
    rows: Seq<int>,
    cols: Seq<int>,
    cx: int,
    cy: int,
)
    ensures
        rules::live_in_window(g, rows, cols, cx, cy) <= rows.len() * cols.len(),
    decreases rows.len(),
{
    if rows.len() > 0 {
        lemma_live_in_row_le(g, rows[0], cols, cx, cy);
        lemma_live_in_window_le(g, rows.drop_first(), cols, cx, cy);
        assert((rows.len() - 1) * cols.len() == rows.len() * cols.len() - cols.len())
            by (nonlinear_arith);
    }
}

/// Unfolding one row of a window scan along its suffixes.
proof fn lemma_live_in_window_suffix_step(
    g: Seq<Seq<bool>>,
    rows: Seq<int>,
    cols: Seq<int>,
    cx: int,
    cy: int,
    k: int,
)
    requires
        0 <= k < rows.len(),
    ensures
        rules::live_in_window(g, rows.skip(k), cols, cx, cy) == rules::live_in_row(
            g,
            rows[k],
            cols,
            cx,
            cy,
        ) + rules::live_in_window(g, rows.skip(k + 1), cols, cx, cy),
{
    assert(rows.skip(k)[0] == rows[k]);
    assert(rows.skip(k).drop_first() =~= rows.skip(k + 1));
}

/// Unfolding one column of a row scan along its suffixes.
proof fn lemma_live_in_row_suffix_step(
    g: Seq<Seq<bool>>,
    j: int,
    cols: Seq<int>,
    cx: int,
    cy: int,
    k: int,
)
    requires
        0 <= k < cols.len(),
    ensures
        rules::live_in_row(g, j, cols.skip(k), cx, cy) == (if (cols[k] != cx || j != cy)
            && g[j][cols[k]] {
            1nat
        } else {
            0nat
        }) + rules::live_in_row(g, j, cols.skip(k + 1), cx, cy),
{
    assert(cols.skip(k)[0] == cols[k]);
    assert(cols.skip(k).drop_first() =~= cols.skip(k + 1));
}

} // verus!
