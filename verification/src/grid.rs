//! The grid abstraction: the capability interface every storage
//! backend implements, and the drawing and query primitives that are
//! written once against it.

use vstd::prelude::*;

use crate::frame_regulator::FrameRegulator;
use crate::rules;
use crate::{grid_point_contained, GridPoint, GridUnit};

verus! {

/// The failure of a coordinate-addressed mutation: carries the
/// offending point and the grid's size.
#[derive(Debug, Clone, Copy, PartialEq, Eq)]
pub struct OutOfBounds {
    pub point: GridPoint,
    pub size: GridPoint,
}

/// The result of a fallible grid mutation.
pub type BResult<T> = Result<T, OutOfBounds>;

/// The orientation of a run of cells.
#[derive(Debug, Clone, Copy, PartialEq, Eq, Structural)]
pub enum SetLineOpt {
    Horizontal,
    Vertical,
}

/// Whether a run of this orientation walks the horizontal axis.
pub open spec fn opt_horizontal(opt: SetLineOpt) -> bool {
    opt is Horizontal
}

/// The storage obligations of a grid backend: the dimensions, the two
/// generation buffers of the double-buffering protocol, and the
/// attached pacer setting, each as a mathematical value.
pub trait GridPrivate: Sized {
    /// The width of the grid.
    spec fn spec_width(&self) -> int;

    /// The height of the grid.
    spec fn spec_height(&self) -> int;

    /// The current generation, as rows of cells.
    spec fn cur(&self) -> Seq<Seq<bool>>;

    /// The scratch generation written during a step, as rows of cells.
    spec fn nxt(&self) -> Seq<Seq<bool>>;

    /// The attached frame pacing setting.
    spec fn pacer(&self) -> Option<FrameRegulator>;

    /// The backend's own storage invariant.
    spec fn inv(&self) -> bool;

    /// The grid's dimensions.
    fn _size(&self) -> (s: GridPoint)
        requires
            self.inv(),
            gens_wf(self.spec_width(), self.spec_height(), self.cur(), self.nxt()),
        ensures
            s.0 as int == self.spec_width(),
            s.1 as int == self.spec_height(),
    ;

    /// The slot holding the optional frame regulator.
    fn _frame_regulator_opt(&mut self) -> (r: &mut Option<FrameRegulator>)
        requires
            old(self).inv(),
            gens_wf(
                old(self).spec_width(),
                old(self).spec_height(),
                old(self).cur(),
                old(self).nxt(),
            ),
        ensures
            *r == old(self).pacer(),
            final(self).pacer() == *final(r),
            final(self).cur() == old(self).cur(),
            final(self).nxt() == old(self).nxt(),
            final(self).spec_width() == old(self).spec_width(),
            final(self).spec_height() == old(self).spec_height(),
            final(self).inv(),
    ;

    /// The scratch-buffer cell at `point`, which must be in range.
    fn _get_next_cell_unchecked_mut(&mut self, point: GridPoint) -> (r: &mut bool)
        requires
            old(self).inv(),
            gens_wf(
                old(self).spec_width(),
                old(self).spec_height(),
                old(self).cur(),
                old(self).nxt(),
            ),
            rules::point_in_bounds(
                point.0 as int,
                point.1 as int,
                old(self).spec_width(),
                old(self).spec_height(),
            ),
        ensures
            *r == old(self).nxt()[point.1 as int][point.0 as int],
            final(self).nxt() =~~= rules::set_one(
                old(self).nxt(),
                point.0 as int,
                point.1 as int,
                *final(r),
            ),
            final(self).cur() == old(self).cur(),
            final(self).pacer() == old(self).pacer(),
            final(self).spec_width() == old(self).spec_width(),
            final(self).spec_height() == old(self).spec_height(),
            final(self).inv(),
    ;

    /// The cell at `point`, which must be in range.
    fn get_cell_unchecked(&self, point: GridPoint) -> (b: bool)
        requires
            self.inv(),
            gens_wf(self.spec_width(), self.spec_height(), self.cur(), self.nxt()),
            rules::point_in_bounds(
                point.0 as int,
                point.1 as int,
                self.spec_width(),
                self.spec_height(),
            ),
        ensures
            b == self.cur()[point.1 as int][point.0 as int],
    ;

    /// The current-generation cell at `point`, which must be in range.
    fn get_cell_unchecked_mut(&mut self, point: GridPoint) -> (r: &mut bool)
        requires
            old(self).inv(),
            gens_wf(
                old(self).spec_width(),
                old(self).spec_height(),
                old(self).cur(),
                old(self).nxt(),
            ),
            rules::point_in_bounds(
                point.0 as int,
                point.1 as int,
                old(self).spec_width(),
                old(self).spec_height(),
            ),
        ensures
            *r == old(self).cur()[point.1 as int][point.0 as int],
            final(self).cur() =~~= rules::set_one(
                old(self).cur(),
                point.0 as int,
                point.1 as int,
                *final(r),
            ),
            final(self).nxt() == old(self).nxt(),
            final(self).pacer() == old(self).pacer(),
            final(self).spec_width() == old(self).spec_width(),
            final(self).spec_height() == old(self).spec_height(),
            final(self).inv(),
    ;
}

/// Dimensions that fit the coordinate type, and two generation
/// buffers that are full `w` x `h` matrices.
pub open spec fn gens_wf(w: int, h: int, cur: Seq<Seq<bool>>, nxt: Seq<Seq<bool>>) -> bool {
    &&& 0 <= w <= u16::MAX as int
    &&& 0 <= h <= u16::MAX as int
    &&& rules::gen_wf(cur, w, h)
    &&& rules::gen_wf(nxt, w, h)
}

/// The full backend invariant: the backend's own storage invariant
/// together with well-formed dimensions and buffers.
pub open spec fn grid_inv<G: GridPrivate>(g: &G) -> bool {
    g.inv() && gens_wf(g.spec_width(), g.spec_height(), g.cur(), g.nxt())
}

/// Everything of a grid but its current generation is kept: the
/// dimensions, the scratch buffer, and the pacer setting.
pub open spec fn same_but_cur<G: GridPrivate>(pre: G, post: G) -> bool {
    &&& post.spec_width() == pre.spec_width()
    &&& post.spec_height() == pre.spec_height()
    &&& post.nxt() == pre.nxt()
    &&& post.pacer() == pre.pacer()
}

/// Everything of a grid but its scratch generation is kept: the
/// dimensions, the current generation, and the pacer setting.
pub open spec fn same_but_nxt<G: GridPrivate>(pre: G, post: G) -> bool {
    &&& post.spec_width() == pre.spec_width()
    &&& post.spec_height() == pre.spec_height()
    &&& post.cur() == pre.cur()
    &&& post.pacer() == pre.pacer()
}

/// The capability set of a grid: query a cell, mutate a cell, advance
/// one generation.  Runs, lines and bulk iteration are provided
/// against these capabilities and inherited by every backend.
pub trait Grid: GridPrivate {
    /// Advance one generation: compute every cell's next state from
    /// the settled current generation per the B3/S23 rule with
    /// toroidal neighbor wrapping, writing only the scratch buffer,
    /// then swap the buffers.  Frame pacing is a side effect the
    /// embedding application performs between calls, sleeping for the
    /// attached regulator's `sleep_deficit`.
    fn update(&mut self)
        requires
            old(self).inv(),
            gens_wf(
                old(self).spec_width(),
                old(self).spec_height(),
                old(self).cur(),
                old(self).nxt(),
            ),
        ensures
            final(self).inv(),
            gens_wf(
                final(self).spec_width(),
                final(self).spec_height(),
                final(self).cur(),
                final(self).nxt(),
            ),
            final(self).spec_width() == old(self).spec_width(),
            final(self).spec_height() == old(self).spec_height(),
            final(self).pacer() == old(self).pacer(),
            final(self).cur() =~~= rules::step_gen(
                old(self).cur(),
                old(self).spec_width(),
                old(self).spec_height(),
            ),
    ;

    /// The grid's dimensions; never fails.
    fn size(&self) -> (s: GridPoint)
        requires
            self.inv(),
            gens_wf(self.spec_width(), self.spec_height(), self.cur(), self.nxt()),
        ensures
            s.0 as int == self.spec_width(),
            s.1 as int == self.spec_height(),
    {
        self._size()
    }

    /// Attach a pacer of `fps` frames per second to the generation
    /// step, or detach it: zero disables pacing rather than failing.
    fn set_fps(&mut self, fps: u64)
        requires
            old(self).inv(),
            gens_wf(
                old(self).spec_width(),
                old(self).spec_height(),
                old(self).cur(),
                old(self).nxt(),
            ),
        ensures
            final(self).inv(),
            gens_wf(
                final(self).spec_width(),
                final(self).spec_height(),
                final(self).cur(),
                final(self).nxt(),
            ),
            final(self).cur() == old(self).cur(),
            final(self).nxt() == old(self).nxt(),
            final(self).spec_width() == old(self).spec_width(),
            final(self).spec_height() == old(self).spec_height(),
            final(self).pacer() == if fps != 0 {
                Some(
                    FrameRegulator {
                        frame_duration_nanos: (crate::frame_regulator::NANOS_PER_SECOND as int
                            / fps as int) as u64,
                    },
                )
            } else {
                Option::<FrameRegulator>::None
            },
    {
        let setting: Option<FrameRegulator> = if fps != 0 {
            match FrameRegulator::fps(fps) {
                Ok(fr) => Some(fr),
                Err(_) => None,
            }
        } else {
            None
        };
        *self._frame_regulator_opt() = setting;
    }

    /// Set the cell at `point` to `b`; fails, mutating nothing, when
    /// `point` lies outside the grid.
    fn set_cell(&mut self, point: GridPoint, b: bool) -> (r: BResult<()>)
        requires
            old(self).inv(),
            gens_wf(
                old(self).spec_width(),
                old(self).spec_height(),
                old(self).cur(),
                old(self).nxt(),
            ),
        ensures
            final(self).inv(),
            gens_wf(
                final(self).spec_width(),
                final(self).spec_height(),
                final(self).cur(),
                final(self).nxt(),
            ),
            same_but_cur(*old(self), *final(self)),
            rules::point_in_bounds(
                point.0 as int,
                point.1 as int,
                old(self).spec_width(),
                old(self).spec_height(),
            ) ==> r is Ok && final(self).cur() =~~= rules::set_one(
                old(self).cur(),
                point.0 as int,
                point.1 as int,
                b,
            ),
            !rules::point_in_bounds(
                point.0 as int,
                point.1 as int,
                old(self).spec_width(),
                old(self).spec_height(),
            ) ==> (r matches Err(e) && e.point == point && e.size.0 as int == old(
                self,
            ).spec_width() && e.size.1 as int == old(self).spec_height() && final(self).cur()
                == old(self).cur()),
    {
        let size = self._size();
        if grid_point_contained(point, size) {
            *self.get_cell_unchecked_mut(point) = b;
            Ok(())
        } else {
            Err(OutOfBounds { point, size })
        }
    }

    /// The cell at `point`; an out-of-range point reads as dead rather
    /// than failing, so neighbor scans near the physical edge need no
    /// special-casing.
    fn get_cell(&self, point: GridPoint) -> (b: bool)
        requires
            self.inv(),
            gens_wf(self.spec_width(), self.spec_height(), self.cur(), self.nxt()),
        ensures
            b == rules::cell_at(
                self.cur(),
                self.spec_width(),
                self.spec_height(),
                point.0 as int,
                point.1 as int,
            ),
    {
        if grid_point_contained(point, self.size()) {
            self.get_cell_unchecked(point)
        } else {
            false
        }
    }

    /// Set a contiguous run of `length` cells to `b`, walking the
    /// axis picked by `opt` from `start` while the other axis stays at
    /// `other`.  The run is abandoned at the first out-of-range cell:
    /// cells before it keep their new state, cells behind it are never
    /// written.
    #[verifier::loop_isolation(false)]
    fn set_run(
        &mut self,
        start: GridUnit,
        length: GridUnit,
        other: GridUnit,
        b: bool,
        opt: SetLineOpt,
    ) -> (r: BResult<()>)
        requires
            grid_inv(old(self)),
        ensures
            grid_inv(final(self)),
            same_but_cur(*old(self), *final(self)),
            final(self).cur() =~~= rules::stamp_run(
                old(self).cur(),
                opt_horizontal(opt),
                start as int,
                other as int,
                rules::run_applied(
                    opt_horizontal(opt),
                    start as int,
                    other as int,
                    length as int,
                    old(self).spec_width(),
                    old(self).spec_height(),
                ),
                b,
            ),
            r is Ok <==> rules::run_fits(
                opt_horizontal(opt),
                start as int,
                other as int,
                length as int,
                old(self).spec_width(),
                old(self).spec_height(),
            ),
            r matches Err(e) ==> (e.point.0 as int, e.point.1 as int) == rules::run_first_bad(
                opt_horizontal(opt),
                start as int,
                other as int,
                length as int,
                old(self).spec_width(),
                old(self).spec_height(),
            ) && e.size.0 as int == old(self).spec_width() && e.size.1 as int == old(
                self,
            ).spec_height(),
    {
        let ghost g0 = old(self).cur();
        let ghost w = old(self).spec_width();
        let ghost h = old(self).spec_height();
        let ghost horiz = opt_horizontal(opt);
        let ghost along: int = if horiz {
            w
        } else {
            h
        };
        let ghost across: int = if horiz {
            h
        } else {
            w
        };
        proof {
            rules::lemma_stamp_run_zero(g0, horiz, start as int, other as int, b);
        }
        let end: u32 = start as u32 + length as u32;
        let mut i: u32 = start as u32;
        while i < end
            invariant
                start as int <= i as int <= end,
                grid_inv(self),
                same_but_cur(*old(self), *self),
                self.cur() =~~= rules::stamp_run(
                    g0,
                    horiz,
                    start as int,
                    other as int,
                    i - start,
                    b,
                ),
                i > start ==> (0 <= (other as int) && (other as int) < across && (i as int)
                    <= along),
            decreases end - i,
        {
            let ghost pre = self.cur();
            let cell: GridPoint = match opt {
                SetLineOpt::Horizontal => (i as GridUnit, other),
                SetLineOpt::Vertical => (other, i as GridUnit),
            };
            proof {
                assert(cell.0 as int == rules::run_cell(
                    horiz,
                    start as int,
                    other as int,
                    i - start,
                ).0);
            }
            match self.set_cell(cell, b) {
                Ok(()) => {
                    proof {
                        rules::lemma_stamp_run_step(
                            g0,
                            horiz,
                            start as int,
                            other as int,
                            i - start,
                            b,
                        );
                    }
                },
                Err(e) => {
                    proof {
                        assert(rules::run_applied(
                            horiz,
                            start as int,
                            other as int,
                            length as int,
                            w,
                            h,
                        ) == i - start);
                    }
                    return Err(e);
                },
            }
            i = i + 1;
        }
        proof {
            assert(rules::run_fits(horiz, start as int, other as int, length as int, w, h));
        }
        Ok(())
    }

    /// Set a horizontal run of `length` cells to `b`, starting at
    /// column `start` of row `y`; partial on failure, as `set_run`.
    fn set_hline(&mut self, start: GridUnit, length: GridUnit, y: GridUnit, b: bool) -> (r: BResult<
        (),
    >)
        requires
            grid_inv(old(self)),
        ensures
            grid_inv(final(self)),
            same_but_cur(*old(self), *final(self)),
            final(self).cur() =~~= rules::stamp_run(
                old(self).cur(),
                true,
                start as int,
                y as int,
                rules::run_applied(
                    true,
                    start as int,
                    y as int,
                    length as int,
                    old(self).spec_width(),
                    old(self).spec_height(),
                ),
                b,
            ),
            r is Ok <==> rules::run_fits(
                true,
                start as int,
                y as int,
                length as int,
                old(self).spec_width(),
                old(self).spec_height(),
            ),
            r matches Err(e) ==> (e.point.0 as int, e.point.1 as int) == rules::run_first_bad(
                true,
                start as int,
                y as int,
                length as int,
                old(self).spec_width(),
                old(self).spec_height(),
            ) && e.size.0 as int == old(self).spec_width() && e.size.1 as int == old(
                self,
            ).spec_height(),
    {
        self.set_run(start, length, y, b, SetLineOpt::Horizontal)
    }

    /// Set a vertical run of `length` cells to `b`, starting at row
    /// `start` of column `x`; partial on failure, as `set_run`.
    fn set_vline(&mut self, start: GridUnit, length: GridUnit, x: GridUnit, b: bool) -> (r: BResult<
        (),
    >)
        requires
            grid_inv(old(self)),
        ensures
            grid_inv(final(self)),
            same_but_cur(*old(self), *final(self)),
            final(self).cur() =~~= rules::stamp_run(
                old(self).cur(),
                false,
                start as int,
                x as int,
                rules::run_applied(
                    false,
                    start as int,
                    x as int,
                    length as int,
                    old(self).spec_width(),
                    old(self).spec_height(),
                ),
                b,
            ),
            r is Ok <==> rules::run_fits(
                false,
                start as int,
                x as int,
                length as int,
                old(self).spec_width(),
                old(self).spec_height(),
            ),
            r matches Err(e) ==> (e.point.0 as int, e.point.1 as int) == rules::run_first_bad(
                false,
                start as int,
                x as int,
                length as int,
                old(self).spec_width(),
                old(self).spec_height(),
            ) && e.size.0 as int == old(self).spec_width() && e.size.1 as int == old(
                self,
            ).spec_height(),
    {
        self.set_run(start, length, x, b, SetLineOpt::Vertical)
    }

    /// Rasterize the segment from `start` to `end` and set its cells
    /// to `b`: axes are swapped for segments steeper than forty-five
    /// degrees, the dominant axis is walked in increasing order, and
    /// the other coordinate follows the ideal line rounded to the
    /// nearest cell, halves away from zero.  The segment is abandoned
    /// at the first out-of-range cell, as a run is.
    #[verifier::loop_isolation(false)]
    fn set_line(&mut self, start: GridPoint, end: GridPoint, b: bool) -> (r: BResult<()>)
        requires
            grid_inv(old(self)),
        ensures
            grid_inv(final(self)),
            same_but_cur(*old(self), *final(self)),
            final(self).cur() =~~= rules::stamp_seg(
                old(self).cur(),
                (start.0 as int, start.1 as int),
                (end.0 as int, end.1 as int),
                rules::seg_applied(
                    (start.0 as int, start.1 as int),
                    (end.0 as int, end.1 as int),
                    old(self).spec_width(),
                    old(self).spec_height(),
                ),
                b,
            ),
            r is Ok <==> rules::seg_applied(
                (start.0 as int, start.1 as int),
                (end.0 as int, end.1 as int),
                old(self).spec_width(),
                old(self).spec_height(),
            ) == rules::seg_len((start.0 as int, start.1 as int), (end.0 as int, end.1 as int)),
            r matches Err(e) ==> (e.point.0 as int, e.point.1 as int) == rules::seg_point(
                (start.0 as int, start.1 as int),
                (end.0 as int, end.1 as int),
                rules::seg_applied(
                    (start.0 as int, start.1 as int),
                    (end.0 as int, end.1 as int),
                    old(self).spec_width(),
                    old(self).spec_height(),
                ),
            ) && e.size.0 as int == old(self).spec_width() && e.size.1 as int == old(
                self,
            ).spec_height(),
    {
        let ghost g0 = old(self).cur();
        let ghost w = old(self).spec_width();
        let ghost h = old(self).spec_height();
        let ghost p0s: (int, int) = (start.0 as int, start.1 as int);
        let ghost p1s: (int, int) = (end.0 as int, end.1 as int);
        let dx: GridUnit = if end.0 >= start.0 {
            end.0 - start.0
        } else {
            start.0 - end.0
        };
        let dy: GridUnit = if end.1 >= start.1 {
            end.1 - start.1
        } else {
            start.1 - end.1
        };
        let steep = dy > dx;
        let s0: GridPoint = if steep {
            (start.1, start.0)
        } else {
            start
        };
        let s1: GridPoint = if steep {
            (end.1, end.0)
        } else {
            end
        };
        let q0: GridPoint;
        let q1: GridPoint;
        if s0.0 <= s1.0 {
            q0 = s0;
            q1 = s1;
        } else {
            q0 = s1;
            q1 = s0;
        }
        proof {
            assert(steep == rules::seg_steep(p0s, p1s));
            assert((q0.0 as int, q0.1 as int) == rules::seg_normalized(p0s, p1s).0);
            assert((q1.0 as int, q1.1 as int) == rules::seg_normalized(p0s, p1s).1);
            assert(rules::seg_len(p0s, p1s) == q1.0 as int - q0.0 as int + 1);
            rules::lemma_stamp_seg_zero(g0, p0s, p1s, b);
        }
        let d: GridUnit = q1.0 - q0.0;
        let n_off: i64 = q1.1 as i64 - q0.1 as i64;
        let mut k: u32 = 0;
        while k <= d as u32
            invariant
                0 <= k as int <= d as int + 1,
                grid_inv(self),
                same_but_cur(*old(self), *self),
                self.cur() =~~= rules::stamp_seg(g0, p0s, p1s, k as int, b),
                rules::seg_applied(p0s, p1s, w, h) == rules::seg_applied_from(
                    p0s,
                    p1s,
                    w,
                    h,
                    k as int,
                ),
            decreases d as int + 1 - k as int,
        {
            let a: GridUnit = q0.0 + k as GridUnit;
            let bc: GridUnit;
            if d == 0 {
                bc = q0.1;
            } else {
                proof {
                    rules::lemma_div_round_half_bounds(n_off as int, d as int, k as int);
                    assert(-0x1_0000_0000_0000 <= (n_off as int) * (k as int)
                        <= 0x1_0000_0000_0000) by (nonlinear_arith)
                        requires
                            -0xffff <= n_off as int <= 0xffff,
                            0 <= k as int <= 0x10000,
                    ;
                }
                let delta: i64 = div_round_half_exec(n_off * (k as i64), d as u32);
                let bv: i64 = q0.1 as i64 + delta;
                bc = bv as GridUnit;
            }
            let cell: GridPoint = if steep {
                (bc, a)
            } else {
                (a, bc)
            };
            proof {
                assert((cell.0 as int, cell.1 as int) == rules::seg_point(p0s, p1s, k as int));
            }
            match self.set_cell(cell, b) {
                Ok(()) => {
                    proof {
                        rules::lemma_stamp_seg_step(g0, p0s, p1s, k as int, b);
                        assert(rules::seg_applied_from(p0s, p1s, w, h, k as int)
                            == rules::seg_applied_from(p0s, p1s, w, h, k as int + 1));
                    }
                },
                Err(e) => {
                    proof {
                        assert(rules::seg_applied_from(p0s, p1s, w, h, k as int) == k as int);
                    }
                    return Err(e);
                },
            }
            k = k + 1;
        }
        proof {
            assert(rules::seg_applied_from(p0s, p1s, w, h, d as int + 1) == rules::seg_len(
                p0s,
                p1s,
            ));
        }
        Ok(())
    }

    /// Every cell of the current generation with its coordinate, in
    /// row-major order: `y` outer, `x` inner, both ascending from
    /// zero.
    #[verifier::loop_isolation(false)]
    fn inspect(&self) -> (v: Vec<(GridPoint, bool)>)
        requires
            grid_inv(self),
        ensures
            v@.len() == self.spec_width() * self.spec_height(),
            forall|jj: int, ii: int|
                0 <= jj < self.spec_height() && 0 <= ii < self.spec_width() ==> #[trigger] v@[jj
                    * self.spec_width() + ii] == (
                ((ii as GridUnit, jj as GridUnit), self.cur()[jj][ii])),
    {
        let ghost w = self.spec_width();
        let ghost h = self.spec_height();
        let size = self._size();
        let mut v: Vec<(GridPoint, bool)> = Vec::new();
        let mut y: GridUnit = 0;
        while y < size.1
            invariant
                0 <= (y as int) <= h,
                v@.len() == y as int * w,
                forall|jj: int, ii: int|
                    0 <= jj < y as int && 0 <= ii < w ==> #[trigger] v@[jj * w + ii] == (
                    ((ii as GridUnit, jj as GridUnit), self.cur()[jj][ii])),
            decreases h - y as int,
        {
            let mut x: GridUnit = 0;
            while x < size.0
                invariant
                    0 <= (y as int) < h,
                    0 <= (x as int) <= w,
                    v@.len() == y as int * w + x as int,
                    forall|jj: int, ii: int|
                        0 <= jj < y as int && 0 <= ii < w ==> #[trigger] v@[jj * w + ii] == (
                        ((ii as GridUnit, jj as GridUnit), self.cur()[jj][ii])),
                    forall|ii: int|
                        0 <= ii < x as int ==> #[trigger] v@[y as int * w + ii] == (
                        ((ii as GridUnit, y as GridUnit), self.cur()[y as int][ii])),
                decreases w - x as int,
            {
                let cell = self.get_cell_unchecked((x, y));
                v.push(((x, y), cell));
                proof {
                    assert forall|jj: int, ii: int|
                        0 <= jj < y as int && 0 <= ii < w implies #[trigger] v@[jj * w + ii] == (
                    ((ii as GridUnit, jj as GridUnit), self.cur()[jj][ii])) by {
                        lemma_lex_index(w, y as int, x as int, jj, ii);
                    }
                    assert forall|ii: int| 0 <= ii < x as int + 1 implies #[trigger] v@[y as int
                        * w + ii] == (((ii as GridUnit, y as GridUnit), self.cur()[y as int][ii])) by {
                        if ii < x as int {
                            lemma_lex_index(w, y as int, x as int, y as int, ii);
                        }
                    }
                }
                x = x + 1;
            }
            proof {
                assert((y as int + 1) * w == y as int * w + w) by (nonlinear_arith);
            }
            y = y + 1;
        }
        proof {
            assert(v@.len() == h * w);
            assert(h * w == w * h) by (nonlinear_arith);
            assert forall|jj: int, ii: int|
                0 <= jj < self.spec_height() && 0 <= ii < self.spec_width() implies #[trigger] v@[jj
                * self.spec_width() + ii] == (
            ((ii as GridUnit, jj as GridUnit), self.cur()[jj][ii])) by {
                assert(v@[jj * w + ii] == (((ii as GridUnit, jj as GridUnit), self.cur()[jj][ii])));
            }
        }
        v
    }

    /// The current generation as text: one character per cell in
    /// row-major order, `tc` for a live cell and `fc` for a dead one,
    /// with a newline closing each row.
    #[verifier::loop_isolation(false)]
    fn to_text(&self, tc: char, fc: char) -> (s: String)
        requires
            grid_inv(self),
        ensures
            s@.len() == self.spec_height() * (self.spec_width() + 1),
            forall|jj: int, ii: int|
                0 <= jj < self.spec_height() && 0 <= ii <= self.spec_width() ==> #[trigger] s@[jj
                    * (self.spec_width() + 1) + ii] == (if ii == self.spec_width() {
                    '\n'
                } else if self.cur()[jj][ii] {
                    tc
                } else {
                    fc
                }),
    {
        let ghost w = self.spec_width();
        let ghost h = self.spec_height();
        let size = self._size();
        let mut s = String::new();
        let mut y: GridUnit = 0;
        while y < size.1
            invariant
                0 <= (y as int) <= h,
                s@.len() == y as int * (w + 1),
                forall|jj: int, ii: int|
                    0 <= jj < y as int && 0 <= ii <= w ==> #[trigger] s@[jj * (w + 1) + ii] == (
                    if ii == w {
                        '\n'
                    } else if self.cur()[jj][ii] {
                        tc
                    } else {
                        fc
                    }),
            decreases h - y as int,
        {
            let mut x: GridUnit = 0;
            while x < size.0
                invariant
                    0 <= (y as int) < h,
                    0 <= (x as int) <= w,
                    s@.len() == y as int * (w + 1) + x as int,
                    forall|jj: int, ii: int|
                        0 <= jj < y as int && 0 <= ii <= w ==> #[trigger] s@[jj * (w + 1) + ii] == (
                        if ii == w {
                            '\n'
                        } else if self.cur()[jj][ii] {
                            tc
                        } else {
                            fc
                        }),
                    forall|ii: int|
                        0 <= ii < x as int ==> #[trigger] s@[y as int * (w + 1) + ii] == (if self.cur()[y as int][ii] {
                            tc
                        } else {
                            fc
                        }),
                decreases w - x as int,
            {
                let cell = self.get_cell_unchecked((x, y));
                let glyph = if cell {
                    tc
                } else {
                    fc
                };
                s.push(glyph);
                proof {
                    assert forall|jj: int, ii: int|
                        0 <= jj < y as int && 0 <= ii <= w implies #[trigger] s@[jj * (w + 1) + ii]
                        == (if ii == w {
                        '\n'
                    } else if self.cur()[jj][ii] {
                        tc
                    } else {
                        fc
                    }) by {
                        lemma_lex_index(w + 1, y as int, x as int, jj, ii);
                    }
                    assert forall|ii: int| 0 <= ii < x as int + 1 implies #[trigger] s@[y as int * (
                    w + 1) + ii] == (if self.cur()[y as int][ii] {
                        tc
                    } else {
                        fc
                    }) by {
                        if ii < x as int {
                            lemma_lex_index(w + 1, y as int, x as int, y as int, ii);
                        }
                    }
                }
                x = x + 1;
            }
            s.push('\n');
            proof {
                assert forall|jj: int, ii: int|
                    0 <= jj < y as int + 1 && 0 <= ii <= w implies #[trigger] s@[jj * (w + 1) + ii]
                    == (if ii == w {
                    '\n'
                } else if self.cur()[jj][ii] {
                    tc
                } else {
                    fc
                }) by {
                    if jj < y as int || ii < w {
                        lemma_lex_index(w + 1, y as int, w, jj, ii);
                    }
                }
                assert((y as int + 1) * (w + 1) == y as int * (w + 1) + w + 1) by (nonlinear_arith);
            }
            y = y + 1;
        }
        s
    }
}

/// Relies on `String::push`: appends the given character to the end
/// of the string.
pub assume_specification[ String::push ](s: &mut String, c: char)
    ensures
        final(s)@ == old(s)@.push(c),
;

/// Row-major position arithmetic: a lexicographically earlier cell
/// has a strictly smaller row-major index.
proof fn lemma_lex_index(w1: int, j: int, i: int, jj: int, ii: int)
    requires
        0 <= jj,
        0 <= ii < w1,
        0 <= i,
        jj < j || (jj == j && ii < i),
    ensures
        jj * w1 + ii < j * w1 + i,
{
    assert(jj * w1 + ii < j * w1 + i) by (nonlinear_arith)
        requires
            0 <= jj,
            0 <= ii < w1,
            0 <= i,
            jj < j || (jj == j && ii < i),
    ;
}

/// Rounding to the nearest integer, halves away from zero, of `n / d`.
fn div_round_half_exec(n: i64, d: u32) -> (q: i64)
    requires
        d > 0,
        -0x1_0000_0000_0000 <= n <= 0x1_0000_0000_0000,
    ensures
        q == rules::div_round_half(n as int, d as int),
{
    let dd: u64 = d as u64;
    if n >= 0 {
        let nn: u64 = n as u64;
        ((2 * nn + dd) / (2 * dd)) as i64
    } else {
        let nn: u64 = (-n) as u64;
        -(((2 * nn + dd) / (2 * dd)) as i64)
    }
}

} // verus!
