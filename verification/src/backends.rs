//! The grid storage backends: a flat linear buffer, a nested
//! row-major buffer, and a fixed-dimension variant.  Each owns both
//! generation buffers of the double-buffering protocol outright.

use vstd::prelude::*;

use crate::frame_regulator::FrameRegulator;
use crate::grid::{gens_wf, Grid, GridPrivate};
use crate::rules;
use crate::step::set_next_state;
use crate::{GridPoint, GridUnit};

verus! {

/// A flat buffer read as rows: cell `(x, y)` lives at index
/// `x + y * w`.
pub open spec fn flat_to_rows(v: Seq<bool>, w: int, h: int) -> Seq<Seq<bool>> {
    Seq::new(h as nat, |j: int| Seq::new(w as nat, |i: int| v[j * w + i]))
}

/// Flat indices are unique per cell: updating the flat buffer at one
/// cell's index updates exactly that cell of the row view.
proof fn lemma_flat_set(v: Seq<bool>, w: int, h: int, x: int, y: int, b: bool)
    requires
        0 <= x < w,
        0 <= y < h,
        v.len() == w * h,
    ensures
        flat_to_rows(v.update(y * w + x, b), w, h) =~~= rules::set_one(
            flat_to_rows(v, w, h),
            x,
            y,
            b,
        ),
{
    lemma_flat_index(w, h, x, y, x, y);
    let base = flat_to_rows(v, w, h);
    let lhs = flat_to_rows(v.update(y * w + x, b), w, h);
    let rhs = rules::set_one(base, x, y, b);
    assert forall|j: int| 0 <= j < h implies lhs[j] =~= rhs[j] by {
        assert forall|i: int| 0 <= i < w implies lhs[j][i] == rhs[j][i] by {
            lemma_flat_index(w, h, x, y, i, j);
            assert(lhs[j][i] == v.update(y * w + x, b)[j * w + i]);
            if j == y {
                assert(rhs[j] == base[y].update(x, b));
                assert(base[y][i] == v[y * w + i]);
            } else {
                assert(rhs[j] == base[j]);
                assert(base[j][i] == v[j * w + i]);
            }
        }
    }
    assert(lhs =~~= rhs);
}

/// The arithmetic of row-major indexing: indices stay in range and
/// coincide only for the same cell.
proof fn lemma_flat_index(w: int, h: int, x: int, y: int, i: int, j: int)
    requires
        0 <= x < w,
        0 <= y < h,
        0 <= i < w,
        0 <= j < h,
    ensures
        0 <= j * w + i < w * h,
        (j * w + i == y * w + x) <==> (j == y && i == x),
{
    assert(0 <= j * w + i < w * h) by (nonlinear_arith)
        requires
            0 <= i < w,
            0 <= j < h,
    ;
    assert((j * w + i == y * w + x) <==> (j == y && i == x)) by (nonlinear_arith)
        requires
            0 <= x < w,
            0 <= i < w,
    ;
}

/// The flat-buffer backend: one contiguous boolean buffer per
/// generation, row-major, favored for cache locality.
pub struct Grid1dVec {
    size: GridPoint,
    current_vec: Vec<bool>,
    next_vec: Vec<bool>,
    frame_regulator_opt: Option<FrameRegulator>,
}

impl Grid1dVec {
    /// An all-dead grid of the given size.
    pub fn empty(size: GridPoint) -> (g: Self)
        ensures
            g.inv(),
            gens_wf(g.spec_width(), g.spec_height(), g.cur(), g.nxt()),
            g.spec_width() == size.0 as int,
            g.spec_height() == size.1 as int,
            g.pacer() is None,
            g.cur() =~~= rules::dead_gen(size.0 as int, size.1 as int),
    {
        proof {
            assert(size.0 as int * size.1 as int <= 0xffff * 0xffff) by (nonlinear_arith)
                requires
                    size.0 <= 0xffff,
                    size.1 <= 0xffff,
            ;
        }
        let n: usize = size.0 as usize * size.1 as usize;
        let current_vec: Vec<bool> = vec![false; n];
        let next_vec: Vec<bool> = vec![false; n];
        let g = Self { size, current_vec, next_vec, frame_regulator_opt: None };
        proof {
            let w = size.0 as int;
            let h = size.1 as int;
            let dead = rules::dead_gen(w, h);
            assert forall|j: int| 0 <= j < h implies g.cur()[j] =~= dead[j] by {
                assert forall|i: int| 0 <= i < w implies g.cur()[j][i] == false by {
                    lemma_flat_index(w, h, i, j, i, j);
                    assert(cloned(false, g.current_vec@[j * w + i]));
                }
            }
            assert(g.cur() =~~= dead);
            assert forall|j: int| 0 <= j < h implies g.nxt()[j].len() == w by {}
        }
        g
    }

    /// The current generation as one row-major slice.
    pub fn as_slice(&self) -> (s: &[bool])
        requires
            self.inv(),
        ensures
            s@.len() == self.spec_width() * self.spec_height(),
            forall|j: int, i: int|
                0 <= j < self.spec_height() && 0 <= i < self.spec_width() ==> s@[j
                    * self.spec_width() + i] == #[trigger] self.cur()[j][i],
    {
        proof {
            assert forall|j: int, i: int|
                0 <= j < self.spec_height() && 0 <= i < self.spec_width() implies 0 <= j
                * self.spec_width() + i < self.spec_width() * self.spec_height() && self.current_vec@[j
                * self.spec_width() + i] == #[trigger] self.cur()[j][i] by {
                lemma_flat_index(self.spec_width(), self.spec_height(), i, j, i, j);
            }
        }
        self.current_vec.as_slice()
    }

    /// The flat index of `point`, row-major.
    fn get_index(&self, point: GridPoint) -> (idx: usize)
        requires
            self.inv(),
            point.0 < self.spec_width(),
            point.1 < self.spec_height(),
        ensures
            idx == point.0 as int + point.1 as int * self.spec_width(),
            idx < self.current_vec@.len(),
            idx < self.next_vec@.len(),
    {
        proof {
            lemma_flat_index(
                self.spec_width(),
                self.spec_height(),
                point.0 as int,
                point.1 as int,
                point.0 as int,
                point.1 as int,
            );
            assert(point.1 as int * self.size.0 as int <= 0xffff * 0xffff) by (nonlinear_arith)
                requires
                    point.1 <= 0xffff,
                    self.size.0 <= 0xffff,
            ;
        }
        point.0 as usize + point.1 as usize * self.size.0 as usize
    }
}

impl Clone for Grid1dVec {
    /// A deep copy: both generation buffers are freshly allocated on
    /// the heap.
    fn clone(&self) -> (res: Self)
        ensures
            res.inv() == self.inv(),
            res.spec_width() == self.spec_width(),
            res.spec_height() == self.spec_height(),
            res.cur() == self.cur(),
            res.nxt() == self.nxt(),
            res.pacer() == self.pacer(),
    {
        let res = Self {
            size: self.size,
            current_vec: self.current_vec.clone(),
            next_vec: self.next_vec.clone(),
            frame_regulator_opt: self.frame_regulator_opt,
        };
        proof {
            assert(res.current_vec@ =~= self.current_vec@);
            assert(res.next_vec@ =~= self.next_vec@);
        }
        res
    }
}

impl GridPrivate for Grid1dVec {
    closed spec fn spec_width(&self) -> int {
        self.size.0 as int
    }

    closed spec fn spec_height(&self) -> int {
        self.size.1 as int
    }

    closed spec fn cur(&self) -> Seq<Seq<bool>> {
        flat_to_rows(self.current_vec@, self.size.0 as int, self.size.1 as int)
    }

    closed spec fn nxt(&self) -> Seq<Seq<bool>> {
        flat_to_rows(self.next_vec@, self.size.0 as int, self.size.1 as int)
    }

    closed spec fn pacer(&self) -> Option<FrameRegulator> {
        self.frame_regulator_opt
    }

    closed spec fn inv(&self) -> bool {
        &&& self.current_vec@.len() == self.size.0 as int * self.size.1 as int
        &&& self.next_vec@.len() == self.size.0 as int * self.size.1 as int
    }

    fn _size(&self) -> (s: GridPoint) {
        self.size
    }

    fn _frame_regulator_opt(&mut self) -> (r: &mut Option<FrameRegulator>) {
        &mut self.frame_regulator_opt
    }

    fn _get_next_cell_unchecked_mut(&mut self, point: GridPoint) -> (r: &mut bool) {
        let idx = self.get_index(point);
        proof {
            lemma_flat_set(
                self.next_vec@,
                self.spec_width(),
                self.spec_height(),
                point.0 as int,
                point.1 as int,
                true,
            );
            lemma_flat_set(
                self.next_vec@,
                self.spec_width(),
                self.spec_height(),
                point.0 as int,
                point.1 as int,
                false,
            );
        }
        &mut self.next_vec[idx]
    }

    fn get_cell_unchecked(&self, point: GridPoint) -> (b: bool) {
        let idx = self.get_index(point);
        self.current_vec[idx]
    }

    fn get_cell_unchecked_mut(&mut self, point: GridPoint) -> (r: &mut bool) {
        let idx = self.get_index(point);
        proof {
            lemma_flat_set(
                self.current_vec@,
                self.spec_width(),
                self.spec_height(),
                point.0 as int,
                point.1 as int,
                true,
            );
            lemma_flat_set(
                self.current_vec@,
                self.spec_width(),
                self.spec_height(),
                point.0 as int,
                point.1 as int,
                false,
            );
        }
        &mut self.current_vec[idx]
    }
}

impl Grid for Grid1dVec {
    fn update(&mut self) {
        let size = self._size();
        if size.0 == 0 || size.1 == 0 {
            proof {
                assert(self.cur() =~~= rules::step_gen(
                    self.cur(),
                    self.spec_width(),
                    self.spec_height(),
                ));
            }
            return ;
        }
        set_next_state(self);
        core::mem::swap(&mut self.current_vec, &mut self.next_vec);
    }

}

/// Nested rows read as a generation: the view of each row vector.
pub open spec fn rows_view(rs: Seq<Vec<bool>>) -> Seq<Seq<bool>> {
    rs.map_values(|r: Vec<bool>| r@)
}

/// Indexing the nested view reads the indexed row's view.
proof fn lemma_rows_view_index(rs: Seq<Vec<bool>>, j: int)
    requires
        0 <= j < rs.len(),
    ensures
        rows_view(rs)[j] == rs[j]@,
        rows_view(rs).len() == rs.len(),
{
}

/// Updating one cell of one row vector updates exactly that cell of
/// the nested view.
proof fn lemma_rows_set(rs: Seq<Vec<bool>>, x: int, y: int, b: bool)
    requires
        0 <= y < rs.len(),
        0 <= x < rs[y]@.len(),
    ensures
        forall|v2: Vec<bool>|
            v2@ == rs[y]@.update(x, b) ==> #[trigger] rows_view(rs.update(y, v2)) =~~= rules::set_one(
                rows_view(rs),
                x,
                y,
                b,
            ),
{
    assert forall|v2: Vec<bool>| v2@ == rs[y]@.update(x, b) implies #[trigger] rows_view(
        rs.update(y, v2),
    ) =~~= rules::set_one(rows_view(rs), x, y, b) by {
        let lhs = rows_view(rs.update(y, v2));
        let rhs = rules::set_one(rows_view(rs), x, y, b);
        assert forall|j: int| 0 <= j < rs.len() implies lhs[j] =~= rhs[j] by {}
        assert(lhs =~~= rhs);
    }
}

/// A freshly allocated all-dead nested buffer of `h` rows of `w`
/// cells.
fn dead_rows(w: usize, h: usize) -> (rs: Vec<Vec<bool>>)
    ensures
        rows_view(rs@) =~~= rules::dead_gen(w as int, h as int),
        rs@.len() == h as int,
        forall|j: int| 0 <= j < h as int ==> (#[trigger] rs@[j])@.len() == w as int,
{
    let mut rs: Vec<Vec<bool>> = Vec::new();
    let mut j: usize = 0;
    while j < h
        invariant
            0 <= j <= h,
            rs@.len() == j as int,
            forall|jj: int|
                0 <= jj < j as int ==> (#[trigger] rs@[jj])@ =~= Seq::new(w as nat, |i: int| false),
        decreases h - j,
    {
        let row: Vec<bool> = vec![false; w];
        proof {
            assert forall|i: int| 0 <= i < w as int implies row@[i] == false by {
                assert(cloned(false, row@[i]));
            }
            assert(row@ =~= Seq::new(w as nat, |i: int| false));
        }
        rs.push(row);
        j += 1;
    }
    proof {
        assert forall|jj: int| 0 <= jj < h as int implies rows_view(rs@)[jj] =~= rules::dead_gen(
            w as int,
            h as int,
        )[jj] by {}
        assert(rows_view(rs@) =~~= rules::dead_gen(w as int, h as int));
    }
    rs
}

/// The nested-row backend: one vector of row vectors per generation,
/// with the simplest two-dimensional indexing.
pub struct Grid2dVec {
    size: GridPoint,
    current_vec: Vec<Vec<bool>>,
    next_vec: Vec<Vec<bool>>,
    frame_regulator_opt: Option<FrameRegulator>,
}

impl Grid2dVec {
    /// An all-dead grid of the given size.
    pub fn empty(size: GridPoint) -> (g: Self)
        ensures
            g.inv(),
            gens_wf(g.spec_width(), g.spec_height(), g.cur(), g.nxt()),
            g.spec_width() == size.0 as int,
            g.spec_height() == size.1 as int,
            g.pacer() is None,
            g.cur() =~~= rules::dead_gen(size.0 as int, size.1 as int),
    {
        let current_vec = dead_rows(size.0 as usize, size.1 as usize);
        let next_vec = dead_rows(size.0 as usize, size.1 as usize);
        Self { size, current_vec, next_vec, frame_regulator_opt: None }
    }
}

impl Clone for Grid2dVec {
    /// A deep copy: every row of both generation buffers is freshly
    /// allocated on the heap.
    fn clone(&self) -> (res: Self)
        ensures
            res.inv() == self.inv(),
            res.spec_width() == self.spec_width(),
            res.spec_height() == self.spec_height(),
            res.cur() == self.cur(),
            res.nxt() == self.nxt(),
            res.pacer() == self.pacer(),
    {
        let res = Self {
            size: self.size,
            current_vec: clone_rows(&self.current_vec),
            next_vec: clone_rows(&self.next_vec),
            frame_regulator_opt: self.frame_regulator_opt,
        };
        proof {
            assert(rows_view(res.current_vec@) =~~= rows_view(self.current_vec@));
            assert(rows_view(res.next_vec@) =~~= rows_view(self.next_vec@));
        }
        res
    }
}

/// A deep copy of a nested buffer, row by row.
fn clone_rows(rs: &Vec<Vec<bool>>) -> (res: Vec<Vec<bool>>)
    ensures
        res@.len() == rs@.len(),
        forall|j: int| 0 <= j < rs@.len() ==> (#[trigger] res@[j])@ == rs@[j]@,
{
    let mut res: Vec<Vec<bool>> = Vec::new();
    let mut j: usize = 0;
    while j < rs.len()
        invariant
            0 <= j <= rs@.len(),
            res@.len() == j as int,
            forall|jj: int| 0 <= jj < j as int ==> (#[trigger] res@[jj])@ == rs@[jj]@,
        decreases rs@.len() - j,
    {
        let row: Vec<bool> = rs[j].clone();
        proof {
            assert forall|i: int| 0 <= i < rs@[j as int]@.len() implies row@[i] == rs@[j as int]@[i] by {
                assert(cloned(rs@[j as int]@[i], row@[i]));
            }
            assert(row@ =~= rs@[j as int]@);
        }
        res.push(row);
        j += 1;
    }
    res
}

impl GridPrivate for Grid2dVec {
    closed spec fn spec_width(&self) -> int {
        self.size.0 as int
    }

    closed spec fn spec_height(&self) -> int {
        self.size.1 as int
    }

    closed spec fn cur(&self) -> Seq<Seq<bool>> {
        rows_view(self.current_vec@)
    }

    closed spec fn nxt(&self) -> Seq<Seq<bool>> {
        rows_view(self.next_vec@)
    }

    closed spec fn pacer(&self) -> Option<FrameRegulator> {
        self.frame_regulator_opt
    }

    closed spec fn inv(&self) -> bool {
        true
    }

    fn _size(&self) -> (s: GridPoint) {
        self.size
    }

    fn _frame_regulator_opt(&mut self) -> (r: &mut Option<FrameRegulator>) {
        &mut self.frame_regulator_opt
    }

    fn _get_next_cell_unchecked_mut(&mut self, point: GridPoint) -> (r: &mut bool) {
        proof {
            lemma_rows_view_index(self.next_vec@, point.1 as int);
            lemma_rows_set(self.next_vec@, point.0 as int, point.1 as int, true);
            lemma_rows_set(self.next_vec@, point.0 as int, point.1 as int, false);
        }
        let row: &mut Vec<bool> = &mut self.next_vec[point.1 as usize];
        &mut row[point.0 as usize]
    }

    fn get_cell_unchecked(&self, point: GridPoint) -> (b: bool) {
        proof {
            lemma_rows_view_index(self.current_vec@, point.1 as int);
        }
        self.current_vec[point.1 as usize][point.0 as usize]
    }

    fn get_cell_unchecked_mut(&mut self, point: GridPoint) -> (r: &mut bool) {
        proof {
            lemma_rows_view_index(self.current_vec@, point.1 as int);
            lemma_rows_set(self.current_vec@, point.0 as int, point.1 as int, true);
            lemma_rows_set(self.current_vec@, point.0 as int, point.1 as int, false);
        }
        let row: &mut Vec<bool> = &mut self.current_vec[point.1 as usize];
        &mut row[point.0 as usize]
    }
}

impl Grid for Grid2dVec {
    fn update(&mut self) {
        let size = self._size();
        if size.0 == 0 || size.1 == 0 {
            proof {
                assert(self.cur() =~~= rules::step_gen(
                    self.cur(),
                    self.spec_width(),
                    self.spec_height(),
                ));
            }
            return ;
        }
        set_next_state(self);
        core::mem::swap(&mut self.current_vec, &mut self.next_vec);
    }
}

/// The fixed-dimension backend: width and height are type-level
/// constants, while both generation buffers live on the heap so that
/// construction and cloning never materialize a by-value matrix on
/// the stack.
pub struct Grid2dArr<const WIDTH: usize, const HEIGHT: usize> {
    current_arr: Vec<Vec<bool>>,
    next_arr: Vec<Vec<bool>>,
    frame_regulator_opt: Option<FrameRegulator>,
}

impl<const WIDTH: usize, const HEIGHT: usize> Grid2dArr<WIDTH, HEIGHT> {
    /// An all-dead grid; the size is fixed by the type.
    pub fn empty() -> (g: Self)
        requires
            WIDTH <= 0xffff,
            HEIGHT <= 0xffff,
        ensures
            g.inv(),
            gens_wf(g.spec_width(), g.spec_height(), g.cur(), g.nxt()),
            g.spec_width() == WIDTH as int,
            g.spec_height() == HEIGHT as int,
            g.pacer() is None,
            g.cur() =~~= rules::dead_gen(WIDTH as int, HEIGHT as int),
    {
        let current_arr = dead_rows(WIDTH, HEIGHT);
        let next_arr = dead_rows(WIDTH, HEIGHT);
        Self { current_arr, next_arr, frame_regulator_opt: None }
    }
}

impl<const WIDTH: usize, const HEIGHT: usize> Clone for Grid2dArr<WIDTH, HEIGHT> {
    /// A deep copy, allocated on the heap rather than cloned through a
    /// by-value stack matrix.
    fn clone(&self) -> (res: Self)
        ensures
            res.inv() == self.inv(),
            res.cur() == self.cur(),
            res.nxt() == self.nxt(),
            res.pacer() == self.pacer(),
    {
        let res = Self {
            current_arr: clone_rows(&self.current_arr),
            next_arr: clone_rows(&self.next_arr),
            frame_regulator_opt: self.frame_regulator_opt,
        };
        proof {
            assert(rows_view(res.current_arr@) =~~= rows_view(self.current_arr@));
            assert(rows_view(res.next_arr@) =~~= rows_view(self.next_arr@));
        }
        res
    }
}

impl<const WIDTH: usize, const HEIGHT: usize> GridPrivate for Grid2dArr<WIDTH, HEIGHT> {
    closed spec fn spec_width(&self) -> int {
        WIDTH as int
    }

    closed spec fn spec_height(&self) -> int {
        HEIGHT as int
    }

    closed spec fn cur(&self) -> Seq<Seq<bool>> {
        rows_view(self.current_arr@)
    }

    closed spec fn nxt(&self) -> Seq<Seq<bool>> {
        rows_view(self.next_arr@)
    }

    closed spec fn pacer(&self) -> Option<FrameRegulator> {
        self.frame_regulator_opt
    }

    closed spec fn inv(&self) -> bool {
        WIDTH <= 0xffff && HEIGHT <= 0xffff
    }

    fn _size(&self) -> (s: GridPoint) {
        (WIDTH as GridUnit, HEIGHT as GridUnit)
    }

    fn _frame_regulator_opt(&mut self) -> (r: &mut Option<FrameRegulator>) {
        &mut self.frame_regulator_opt
    }

    fn _get_next_cell_unchecked_mut(&mut self, point: GridPoint) -> (r: &mut bool) {
        proof {
            lemma_rows_view_index(self.next_arr@, point.1 as int);
            lemma_rows_set(self.next_arr@, point.0 as int, point.1 as int, true);
            lemma_rows_set(self.next_arr@, point.0 as int, point.1 as int, false);
        }
        let row: &mut Vec<bool> = &mut self.next_arr[point.1 as usize];
        &mut row[point.0 as usize]
    }

    fn get_cell_unchecked(&self, point: GridPoint) -> (b: bool) {
        proof {
            lemma_rows_view_index(self.current_arr@, point.1 as int);
        }
        self.current_arr[point.1 as usize][point.0 as usize]
    }

    fn get_cell_unchecked_mut(&mut self, point: GridPoint) -> (r: &mut bool) {
        proof {
            lemma_rows_view_index(self.current_arr@, point.1 as int);
            lemma_rows_set(self.current_arr@, point.0 as int, point.1 as int, true);
            lemma_rows_set(self.current_arr@, point.0 as int, point.1 as int, false);
        }
        let row: &mut Vec<bool> = &mut self.current_arr[point.1 as usize];
        &mut row[point.0 as usize]
    }
}

impl<const WIDTH: usize, const HEIGHT: usize> Grid for Grid2dArr<WIDTH, HEIGHT> {
    fn update(&mut self) {
        let size = self._size();
        if size.0 == 0 || size.1 == 0 {
            proof {
                assert(self.cur() =~~= rules::step_gen(
                    self.cur(),
                    self.spec_width(),
                    self.spec_height(),
                ));
            }
            return ;
        }
        set_next_state(self);
        core::mem::swap(&mut self.current_arr, &mut self.next_arr);
    }
}

impl<G: GridPrivate> GridPrivate for Box<G> {
    open spec fn spec_width(&self) -> int {
        (**self).spec_width()
    }

    open spec fn spec_height(&self) -> int {
        (**self).spec_height()
    }

    open spec fn cur(&self) -> Seq<Seq<bool>> {
        (**self).cur()
    }

    open spec fn nxt(&self) -> Seq<Seq<bool>> {
        (**self).nxt()
    }

    open spec fn pacer(&self) -> Option<FrameRegulator> {
        (**self).pacer()
    }

    open spec fn inv(&self) -> bool {
        (**self).inv()
    }

    fn _size(&self) -> (s: GridPoint) {
        (**self)._size()
    }

    fn _frame_regulator_opt(&mut self) -> (r: &mut Option<FrameRegulator>) {
        (&mut **self)._frame_regulator_opt()
    }

    fn _get_next_cell_unchecked_mut(&mut self, point: GridPoint) -> (r: &mut bool) {
        (&mut **self)._get_next_cell_unchecked_mut(point)
    }

    fn get_cell_unchecked(&self, point: GridPoint) -> (b: bool) {
        (**self).get_cell_unchecked(point)
    }

    fn get_cell_unchecked_mut(&mut self, point: GridPoint) -> (r: &mut bool) {
        (&mut **self).get_cell_unchecked_mut(point)
    }
}

impl<G: Grid> Grid for Box<G> {
    fn update(&mut self) {
        (&mut **self).update()
    }
}

} // verus!
