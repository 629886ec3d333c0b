//! The mathematical model of a generation and of the B3/S23 step on a
//! toroidal grid, together with the models of the drawing primitives.

use vstd::prelude::*;

verus! {

/// A well-formed generation: `h` rows of `w` cells each; `true` is a
/// live cell.
pub open spec fn gen_wf(g: Seq<Seq<bool>>, w: int, h: int) -> bool {
    &&& g.len() == h
    &&& forall|j: int| 0 <= j < h ==> (#[trigger] g[j]).len() == w
}

/// Whether `(x, y)` lies inside a `w` by `h` grid.
pub open spec fn point_in_bounds(x: int, y: int, w: int, h: int) -> bool {
    0 <= x < w && 0 <= y < h
}

/// The state of the cell at `(x, y)`, with every out-of-range
/// coordinate read as dead.
pub open spec fn cell_at(g: Seq<Seq<bool>>, w: int, h: int, x: int, y: int) -> bool {
    point_in_bounds(x, y, w, h) && g[y][x]
}

/// The coordinate one step before `v` on a wrapping axis of length `n`.
pub open spec fn wrap_dec(v: int, n: int) -> int {
    if v == 0 {
        n - 1
    } else {
        v - 1
    }
}

/// The coordinate one step after `v` on a wrapping axis of length `n`.
pub open spec fn wrap_inc(v: int, n: int) -> int {
    if v == n - 1 {
        0
    } else {
        v + 1
    }
}

/// The distinct coordinates within wrapping distance one of `v` on an
/// axis of length `n`, `v` itself included: three coordinates when the
/// wrapped predecessor and successor are distinct, fewer on axes of
/// length one or two.
pub open spec fn axis_window(v: int, n: int) -> Seq<int> {
    let p = wrap_dec(v, n);
    let q = wrap_inc(v, n);
    if p == v {
        seq![v]
    } else if p == q {
        seq![p, v]
    } else {
        seq![p, v, q]
    }
}

/// The number of live cells of `g` in row `j` among the columns `cols`,
/// the center cell `(cx, cy)` never counted.
pub open spec fn live_in_row(g: Seq<Seq<bool>>, j: int, cols: Seq<int>, cx: int, cy: int) -> nat
    decreases cols.len(),
{
    if cols.len() == 0 {
        0
    } else {
        (if (cols[0] != cx || j != cy) && g[j][cols[0]] {
            1nat
        } else {
            0nat
        }) + live_in_row(g, j, cols.drop_first(), cx, cy)
    }
}

/// The number of live cells of `g` in the window `rows` x `cols`, the
/// center cell `(cx, cy)` never counted.
pub open spec fn live_in_window(
    g: Seq<Seq<bool>>,
    rows: Seq<int>,
    cols: Seq<int>,
    cx: int,
    cy: int,
) -> nat
    decreases rows.len(),
{
    if rows.len() == 0 {
        0
    } else {
        live_in_row(g, rows[0], cols, cx, cy) + live_in_window(
            g,
            rows.drop_first(),
            cols,
            cx,
            cy,
        )
    }
}

/// The number of live Moore neighbors of `(x, y)` under toroidal
/// topology: the distinct wrapped neighbor positions are examined and
/// the center cell itself is never counted, so axes of length one or
/// two neither self-count nor double-count.
pub open spec fn live_neighbors(g: Seq<Seq<bool>>, w: int, h: int, x: int, y: int) -> nat {
    live_in_window(g, axis_window(y, h), axis_window(x, w), x, y)
}

/// The B3/S23 rule: alive in the next generation iff exactly three
/// live neighbors, or exactly two and the cell itself is alive.
pub open spec fn next_cell(g: Seq<Seq<bool>>, w: int, h: int, x: int, y: int) -> bool {
    let c = live_neighbors(g, w, h, x, y);
    c == 3 || (c == 2 && g[y][x])
}

/// One full generation step of the `w` by `h` grid `g`.
pub open spec fn step_gen(g: Seq<Seq<bool>>, w: int, h: int) -> Seq<Seq<bool>> {
    Seq::new(h as nat, |j: int| Seq::new(w as nat, |i: int| next_cell(g, w, h, i, j)))
}

/// The all-dead generation of a `w` by `h` grid: a new grid starts
/// here.
pub open spec fn dead_gen(w: int, h: int) -> Seq<Seq<bool>> {
    Seq::new(h as nat, |j: int| Seq::new(w as nat, |i: int| false))
}

/// `1` for a live cell, `0` for a dead one.
pub open spec fn live_as_count(b: bool) -> nat {
    if b {
        1
    } else {
        0
    }
}

/// On an axis of length three or more, the window around `v` is the
/// wrapped predecessor, `v`, and the wrapped successor, all distinct.
pub proof fn lemma_axis_window_three(v: int, n: int)
    requires
        n >= 3,
        0 <= v < n,
    ensures
        axis_window(v, n) =~= seq![wrap_dec(v, n), v, wrap_inc(v, n)],
        wrap_dec(v, n) != v,
        wrap_inc(v, n) != v,
        wrap_dec(v, n) != wrap_inc(v, n),
        0 <= wrap_dec(v, n) < n,
        0 <= wrap_inc(v, n) < n,
{
}

/// On a grid at least three wide and three high, the neighbor count of
/// `(x, y)` is the sum over the eight wrapped neighbor positions.
pub proof fn lemma_live_neighbors_eight(g: Seq<Seq<bool>>, w: int, h: int, x: int, y: int)
    requires
        w >= 3,
        h >= 3,
        0 <= x < w,
        0 <= y < h,
    ensures
        live_neighbors(g, w, h, x, y) == live_as_count(g[wrap_dec(y, h)][wrap_dec(x, w)])
            + live_as_count(g[wrap_dec(y, h)][x]) + live_as_count(g[wrap_dec(y, h)][wrap_inc(x, w)])
            + live_as_count(g[y][wrap_dec(x, w)]) + live_as_count(g[y][wrap_inc(x, w)])
            + live_as_count(g[wrap_inc(y, h)][wrap_dec(x, w)]) + live_as_count(g[wrap_inc(y, h)][x])
            + live_as_count(g[wrap_inc(y, h)][wrap_inc(x, w)]),
{
    let xp = wrap_dec(x, w);
    let xn = wrap_inc(x, w);
    let yp = wrap_dec(y, h);
    let yn = wrap_inc(y, h);
    lemma_axis_window_three(x, w);
    lemma_axis_window_three(y, h);
    let cols = seq![xp, x, xn];
    let rows = seq![yp, y, yn];
    lemma_live_in_row_three(g, yp, xp, x, xn, x, y);
    lemma_live_in_row_three(g, y, xp, x, xn, x, y);
    lemma_live_in_row_three(g, yn, xp, x, xn, x, y);
    assert(rows.drop_first() =~= seq![y, yn]);
    assert(rows.drop_first().drop_first() =~= seq![yn]);
    assert(seq![yn].drop_first() =~= Seq::<int>::empty());
    assert(live_in_window(g, Seq::<int>::empty(), cols, x, y) == 0);
    assert(live_in_window(g, seq![yn], cols, x, y) == live_in_row(g, yn, cols, x, y));
    assert(live_in_window(g, seq![y, yn], cols, x, y) == live_in_row(g, y, cols, x, y)
        + live_in_row(g, yn, cols, x, y));
    assert(live_in_window(g, rows, cols, x, y) == live_in_row(g, yp, cols, x, y) + live_in_row(
        g,
        y,
        cols,
        x,
        y,
    ) + live_in_row(g, yn, cols, x, y));
}

/// A scan of one row over three columns is the sum of its three terms,
/// the center cell `(cx, cy)` skipped.
proof fn lemma_live_in_row_three(
    g: Seq<Seq<bool>>,
    j: int,
    c0: int,
    c1: int,
    c2: int,
    cx: int,
    cy: int,
)
    ensures
        live_in_row(g, j, seq![c0, c1, c2], cx, cy) == (if (c0 != cx || j != cy) && g[j][c0] {
            1nat
        } else {
            0nat
        }) + (if (c1 != cx || j != cy) && g[j][c1] {
            1nat
        } else {
            0nat
        }) + (if (c2 != cx || j != cy) && g[j][c2] {
            1nat
        } else {
            0nat
        }),
{
    let cols = seq![c0, c1, c2];
    assert(cols.drop_first() =~= seq![c1, c2]);
    assert(seq![c1, c2].drop_first() =~= seq![c2]);
    assert(seq![c2].drop_first() =~= Seq::<int>::empty());
    assert(live_in_row(g, j, Seq::<int>::empty(), cx, cy) == 0);
    assert(live_in_row(g, j, seq![c2], cx, cy) == (if (c2 != cx || j != cy) && g[j][c2] {
        1nat
    } else {
        0nat
    }));
    assert(live_in_row(g, j, seq![c1, c2], cx, cy) == (if (c1 != cx || j != cy) && g[j][c1] {
        1nat
    } else {
        0nat
    }) + live_in_row(g, j, seq![c2], cx, cy));
}

/// In the interior of the grid no wrapping occurs: the neighbor count
/// is the sum over the eight directly adjacent positions.
pub proof fn lemma_live_neighbors_interior(g: Seq<Seq<bool>>, w: int, h: int, x: int, y: int)
    requires
        1 <= x <= w - 2,
        1 <= y <= h - 2,
    ensures
        live_neighbors(g, w, h, x, y) == live_as_count(g[y - 1][x - 1]) + live_as_count(g[y - 1][x])
            + live_as_count(g[y - 1][x + 1]) + live_as_count(g[y][x - 1]) + live_as_count(
            g[y][x + 1],
        ) + live_as_count(g[y + 1][x - 1]) + live_as_count(g[y + 1][x]) + live_as_count(
            g[y + 1][x + 1],
        ),
{
    lemma_live_neighbors_eight(g, w, h, x, y);
}

/// The generation `g` with the cell at `(x, y)` set to `b`.
pub open spec fn set_one(g: Seq<Seq<bool>>, x: int, y: int, b: bool) -> Seq<Seq<bool>> {
    g.update(y, g[y].update(x, b))
}

/// Whether `(i, j)` lies on the first `count` cells of a horizontal or
/// vertical run that starts at coordinate `start` of its own axis and
/// sits at coordinate `other` of the crossing axis.
pub open spec fn in_run(horiz: bool, start: int, other: int, count: int, i: int, j: int) -> bool {
    if horiz {
        j == other && start <= i < start + count
    } else {
        i == other && start <= j < start + count
    }
}

/// How many cells of a run of length `len` lie inside the grid before
/// the first out-of-range cell: a run is abandoned at that cell, so
/// cells behind it are never written even when they would be in range.
pub open spec fn run_applied(horiz: bool, start: int, other: int, len: int, w: int, h: int) -> int {
    let along = if horiz {
        w
    } else {
        h
    };
    let across = if horiz {
        h
    } else {
        w
    };
    if !(0 <= other < across) {
        0
    } else if start + len <= along {
        len
    } else if start >= along {
        0
    } else {
        along - start
    }
}

/// Whether a whole run of length `len` lies inside the grid.
pub open spec fn run_fits(horiz: bool, start: int, other: int, len: int, w: int, h: int) -> bool {
    run_applied(horiz, start, other, len, w, h) == len
}

/// The first out-of-range cell of a run that does not fit.
pub open spec fn run_first_bad(horiz: bool, start: int, other: int, len: int, w: int, h: int) -> (
    int,
    int,
) {
    let along = if horiz {
        w
    } else {
        h
    };
    let across = if horiz {
        h
    } else {
        w
    };
    let bad = if !(0 <= other < across) {
        start
    } else if start >= along {
        start
    } else {
        along
    };
    if horiz {
        (bad, other)
    } else {
        (other, bad)
    }
}

/// The generation after the first `count` cells of a run are set to
/// `b`; dimensions are kept, every other cell is kept.
pub open spec fn stamp_run(
    g: Seq<Seq<bool>>,
    horiz: bool,
    start: int,
    other: int,
    count: int,
    b: bool,
) -> Seq<Seq<bool>> {
    Seq::new(
        g.len(),
        |j: int|
            Seq::new(
                g[j].len(),
                |i: int|
                    if in_run(horiz, start, other, count, i, j) {
                        b
                    } else {
                        g[j][i]
                    },
            ),
    )
}

/// The `k`-th cell of a run: the run's own axis advances from
/// `start`, the crossing axis stays at `other`.
pub open spec fn run_cell(horiz: bool, start: int, other: int, k: int) -> (int, int) {
    if horiz {
        (start + k, other)
    } else {
        (other, start + k)
    }
}

/// A run of no cells stamps nothing.
pub proof fn lemma_stamp_run_zero(g: Seq<Seq<bool>>, horiz: bool, start: int, other: int, b: bool)
    ensures
        stamp_run(g, horiz, start, other, 0, b) =~~= g,
{
    let lhs = stamp_run(g, horiz, start, other, 0, b);
    assert forall|j: int| 0 <= j < g.len() implies lhs[j] =~= g[j] by {}
    assert(lhs =~~= g);
}

/// Setting the run's next cell extends the stamped prefix by one.
pub proof fn lemma_stamp_run_step(
    g: Seq<Seq<bool>>,
    horiz: bool,
    start: int,
    other: int,
    k: int,
    b: bool,
)
    requires
        k >= 0,
        0 <= run_cell(horiz, start, other, k).1 < g.len(),
        0 <= run_cell(horiz, start, other, k).0 < g[run_cell(horiz, start, other, k).1].len(),
    ensures
        set_one(
            stamp_run(g, horiz, start, other, k, b),
            run_cell(horiz, start, other, k).0,
            run_cell(horiz, start, other, k).1,
            b,
        ) =~~= stamp_run(g, horiz, start, other, k + 1, b),
{
    let px = run_cell(horiz, start, other, k).0;
    let py = run_cell(horiz, start, other, k).1;
    let lhs = set_one(stamp_run(g, horiz, start, other, k, b), px, py, b);
    let rhs = stamp_run(g, horiz, start, other, k + 1, b);
    assert forall|j: int| 0 <= j < g.len() implies lhs[j] =~= rhs[j] by {
        assert forall|i: int| 0 <= i < g[j].len() implies lhs[j][i] == rhs[j][i] by {}
    }
    assert(lhs =~~= rhs);
}

/// The absolute distance of two axis coordinates.
pub open spec fn axis_dist(a: int, b: int) -> int {
    if a >= b {
        a - b
    } else {
        b - a
    }
}

/// Rounding to the nearest integer, halves away from zero, of `n / d`
/// for a positive `d`.  This is the rounding rule the line rasterizer
/// commits to.
pub open spec fn div_round_half(n: int, d: int) -> int
    recommends
        d > 0,
{
    if n >= 0 {
        (2 * n + d) / (2 * d)
    } else {
        -((2 * (-n) + d) / (2 * d))
    }
}

/// A segment is steep when it rises faster than it runs; the rasterizer
/// then walks the vertical axis instead of the horizontal one.
pub open spec fn seg_steep(p0: (int, int), p1: (int, int)) -> bool {
    axis_dist(p1.1, p0.1) > axis_dist(p1.0, p0.0)
}

/// The number of cells a rasterized segment holds: one per coordinate
/// of the dominant axis, endpoints included.
pub open spec fn seg_len(p0: (int, int), p1: (int, int)) -> int {
    1 + if seg_steep(p0, p1) {
        axis_dist(p1.1, p0.1)
    } else {
        axis_dist(p1.0, p0.0)
    }
}

/// The segment's endpoints in walking order, axes swapped for steep
/// segments so that the first coordinate is the dominant axis and never
/// decreases from the first returned point to the second.
pub open spec fn seg_normalized(p0: (int, int), p1: (int, int)) -> ((int, int), (int, int)) {
    let q0 = if seg_steep(p0, p1) {
        (p0.1, p0.0)
    } else {
        p0
    };
    let q1 = if seg_steep(p0, p1) {
        (p1.1, p1.0)
    } else {
        p1
    };
    if q0.0 <= q1.0 {
        (q0, q1)
    } else {
        (q1, q0)
    }
}

/// The `k`-th cell of the rasterized segment from `p0` to `p1`, for
/// `0 <= k < seg_len(p0, p1)`: the dominant axis advances one cell per
/// step while the other axis follows the rounded ideal line.
pub open spec fn seg_point(p0: (int, int), p1: (int, int), k: int) -> (int, int) {
    let (q0, q1) = seg_normalized(p0, p1);
    let d = q1.0 - q0.0;
    let a = q0.0 + k;
    let b = if d == 0 {
        q0.1
    } else {
        q0.1 + div_round_half((q1.1 - q0.1) * k, d)
    };
    if seg_steep(p0, p1) {
        (b, a)
    } else {
        (a, b)
    }
}

/// How many cells of the segment are written before the first cell
/// outside the grid: the whole segment when every cell is in range.
pub open spec fn seg_applied_from(p0: (int, int), p1: (int, int), w: int, h: int, k: int) -> int
    decreases seg_len(p0, p1) - k,
{
    if k < 0 || k >= seg_len(p0, p1) {
        seg_len(p0, p1)
    } else if !point_in_bounds(seg_point(p0, p1, k).0, seg_point(p0, p1, k).1, w, h) {
        k
    } else {
        seg_applied_from(p0, p1, w, h, k + 1)
    }
}

/// See `seg_applied_from`: the count of written cells of the segment.
pub open spec fn seg_applied(p0: (int, int), p1: (int, int), w: int, h: int) -> int {
    seg_applied_from(p0, p1, w, h, 0)
}

/// Whether `(i, j)` is among the first `count` cells of the segment.
pub open spec fn in_seg_prefix(p0: (int, int), p1: (int, int), count: int, i: int, j: int) -> bool {
    exists|m: int| 0 <= m < count && seg_point(p0, p1, m) == (i, j)
}

/// The generation after the first `count` cells of the segment are set
/// to `b`; dimensions are kept, every other cell is kept.
pub open spec fn stamp_seg(
    g: Seq<Seq<bool>>,
    p0: (int, int),
    p1: (int, int),
    count: int,
    b: bool,
) -> Seq<Seq<bool>> {
    Seq::new(
        g.len(),
        |j: int|
            Seq::new(
                g[j].len(),
                |i: int|
                    if in_seg_prefix(p0, p1, count, i, j) {
                        b
                    } else {
                        g[j][i]
                    },
            ),
    )
}

/// A segment prefix of no cells stamps nothing.
pub proof fn lemma_stamp_seg_zero(g: Seq<Seq<bool>>, p0: (int, int), p1: (int, int), b: bool)
    ensures
        stamp_seg(g, p0, p1, 0, b) =~~= g,
{
    let lhs = stamp_seg(g, p0, p1, 0, b);
    assert forall|j: int| 0 <= j < g.len() implies lhs[j] =~= g[j] by {
        assert forall|i: int| 0 <= i < g[j].len() implies lhs[j][i] == g[j][i] by {
            assert(!in_seg_prefix(p0, p1, 0, i, j));
        }
    }
    assert(lhs =~~= g);
}

/// Setting the segment's next cell extends the stamped prefix by one.
pub proof fn lemma_stamp_seg_step(
    g: Seq<Seq<bool>>,
    p0: (int, int),
    p1: (int, int),
    k: int,
    b: bool,
)
    requires
        0 <= k,
        0 <= seg_point(p0, p1, k).1 < g.len(),
        0 <= seg_point(p0, p1, k).0 < g[seg_point(p0, p1, k).1].len(),
    ensures
        set_one(
            stamp_seg(g, p0, p1, k, b),
            seg_point(p0, p1, k).0,
            seg_point(p0, p1, k).1,
            b,
        ) =~~= stamp_seg(g, p0, p1, k + 1, b),
{
    let px = seg_point(p0, p1, k).0;
    let py = seg_point(p0, p1, k).1;
    let lhs = set_one(stamp_seg(g, p0, p1, k, b), px, py, b);
    let rhs = stamp_seg(g, p0, p1, k + 1, b);
    assert forall|j: int| 0 <= j < g.len() implies lhs[j] =~= rhs[j] by {
        assert forall|i: int| 0 <= i < g[j].len() implies lhs[j][i] == rhs[j][i] by {
            if i == px && j == py {
                assert(seg_point(p0, p1, k) == (i, j));
                assert(in_seg_prefix(p0, p1, k + 1, i, j));
            } else {
                if in_seg_prefix(p0, p1, k + 1, i, j) {
                    let m = choose|m: int| 0 <= m < k + 1 && seg_point(p0, p1, m) == (i, j);
                    assert(m != k);
                    assert(0 <= m < k && seg_point(p0, p1, m) == (i, j));
                    assert(in_seg_prefix(p0, p1, k, i, j));
                }
                if in_seg_prefix(p0, p1, k, i, j) {
                    let m = choose|m: int| 0 <= m < k && seg_point(p0, p1, m) == (i, j);
                    assert(0 <= m < k + 1 && seg_point(p0, p1, m) == (i, j));
                    assert(in_seg_prefix(p0, p1, k + 1, i, j));
                }
            }
        }
    }
    assert(lhs =~~= rhs);
}

/// The rounded ideal line never leaves the band between its endpoint
/// offsets: for `0 <= k <= d`, rounding `n * k / d` stays between `0`
/// and `n`.
pub proof fn lemma_div_round_half_bounds(n: int, d: int, k: int)
    requires
        d > 0,
        0 <= k <= d,
    ensures
        n >= 0 ==> 0 <= div_round_half(n * k, d) <= n,
        n < 0 ==> n <= div_round_half(n * k, d) <= 0,
{
    if n >= 0 {
        lemma_div_round_half_bounds_nonneg(n, d, k);
    } else {
        let nn = -n;
        lemma_div_round_half_bounds_nonneg(nn, d, k);
        if k == 0 {
            assert(n * k == 0) by (nonlinear_arith)
                requires
                    k == 0,
            ;
            assert(div_round_half(0, d) == d / (2 * d));
            vstd::arithmetic::div_mod::lemma_div_multiples_vanish_fancy(0, d, 2 * d);
            assert(2 * d * 0 + d == d) by (nonlinear_arith);
        } else {
            assert(n * k < 0) by (nonlinear_arith)
                requires
                    n < 0 && k > 0,
            ;
            assert(-(n * k) == nn * k) by (nonlinear_arith)
                requires
                    nn == -n,
            ;
            assert(div_round_half(n * k, d) == -div_round_half(nn * k, d));
        }
    }
}

/// See `lemma_div_round_half_bounds`: the case of a non-negative
/// numerator.
proof fn lemma_div_round_half_bounds_nonneg(n: int, d: int, k: int)
    requires
        d > 0,
        0 <= k <= d,
        n >= 0,
    ensures
        0 <= div_round_half(n * k, d) <= n,
{
    let m = n * k;
    vstd::arithmetic::mul::lemma_mul_nonnegative(n, k);
    vstd::arithmetic::mul::lemma_mul_inequality(k, d, n);
    assert(k * n == n * k && d * n == n * d) by (nonlinear_arith);
    assert(0 <= m && m <= n * d);
    vstd::arithmetic::div_mod::lemma_div_pos_is_pos(2 * m + d, 2 * d);
    vstd::arithmetic::div_mod::lemma_div_is_ordered(2 * m + d, 2 * (n * d) + d, 2 * d);
    vstd::arithmetic::div_mod::lemma_div_multiples_vanish_fancy(n, d, 2 * d);
    assert(2 * (n * d) == (2 * d) * n) by (nonlinear_arith);
}

} // verus!
