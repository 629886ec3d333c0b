//! Cell coloring for a windowed visualizer: a plain RGB color value,
//! cyclical color modulation, and a heat-map fade.  The embedding
//! renderer queries one color per cell per frame; everything here is
//! pure state arithmetic, so it lives with the verified core.

use vstd::prelude::*;

use crate::GridPoint;

verus! {

/// A plain RGB color value.
#[derive(Clone, Copy, Debug, PartialEq, Eq, Structural)]
pub struct Color {
    pub r: u8,
    pub g: u8,
    pub b: u8,
}

impl Color {
    /// The color with the given channel values.
    pub fn rgb(r: u8, g: u8, b: u8) -> (c: Color)
        ensures
            c == (Color { r, g, b }),
    {
        Color { r, g, b }
    }
}

/// A primary color.
#[derive(Clone, Copy, Debug, PartialEq, Eq, Structural)]
pub enum Rgb {
    Red,
    Green,
    Blue,
}

/// The color value of a primary color.
pub open spec fn rgb_color(c: Rgb) -> Color {
    match c {
        Rgb::Red => Color { r: 255, g: 0, b: 0 },
        Rgb::Green => Color { r: 0, g: 255, b: 0 },
        Rgb::Blue => Color { r: 0, g: 0, b: 255 },
    }
}

impl Rgb {
    /// The color value of this primary color.
    pub fn color(self) -> (c: Color)
        ensures
            c == rgb_color(self),
    {
        match self {
            Rgb::Red => Color::rgb(255, 0, 0),
            Rgb::Green => Color::rgb(0, 255, 0),
            Rgb::Blue => Color::rgb(0, 0, 255),
        }
    }
}

/// A primary or secondary color of the six-color wheel.
#[derive(Clone, Copy, Debug, PartialEq, Eq, Structural)]
pub enum Rygcbm {
    Red,
    Yellow,
    Green,
    Cyan,
    Blue,
    Magenta,
}

/// The color value of a color-wheel color.
pub open spec fn rygcbm_color(c: Rygcbm) -> Color {
    match c {
        Rygcbm::Red => Color { r: 255, g: 0, b: 0 },
        Rygcbm::Yellow => Color { r: 255, g: 255, b: 0 },
        Rygcbm::Green => Color { r: 0, g: 255, b: 0 },
        Rygcbm::Cyan => Color { r: 0, g: 255, b: 255 },
        Rygcbm::Blue => Color { r: 0, g: 0, b: 255 },
        Rygcbm::Magenta => Color { r: 255, g: 0, b: 255 },
    }
}

impl Rygcbm {
    /// The color value of this color-wheel color.
    pub fn color(self) -> (c: Color)
        ensures
            c == rygcbm_color(self),
    {
        match self {
            Rygcbm::Red => Color::rgb(255, 0, 0),
            Rygcbm::Yellow => Color::rgb(255, 255, 0),
            Rygcbm::Green => Color::rgb(0, 255, 0),
            Rygcbm::Cyan => Color::rgb(0, 255, 255),
            Rygcbm::Blue => Color::rgb(0, 0, 255),
            Rygcbm::Magenta => Color::rgb(255, 0, 255),
        }
    }
}

/// The palette a cyclical modulator starts from.
#[derive(Clone, Copy, Debug, PartialEq, Eq, Structural)]
pub enum CyclicalModulatorOpt {
    Rgb(Rgb),
    Rygcbm(Rygcbm),
}

/// The starting color of a cyclical modulator palette.
pub open spec fn cyclical_opt_color(opt: CyclicalModulatorOpt) -> Color {
    match opt {
        CyclicalModulatorOpt::Rgb(c) => rgb_color(c),
        CyclicalModulatorOpt::Rygcbm(c) => rygcbm_color(c),
    }
}

impl CyclicalModulatorOpt {
    /// The starting color of this palette.
    pub fn color(self) -> (c: Color)
        ensures
            c == cyclical_opt_color(self),
    {
        match self {
            CyclicalModulatorOpt::Rgb(c) => c.color(),
            CyclicalModulatorOpt::Rygcbm(c) => c.color(),
        }
    }
}

/// One modulation step of the three-color cycle: the current channel
/// drains into the next one.
pub open spec fn rgb_cycle_step(c: Color) -> Color {
    if c.r > 0 && c.b == 0 {
        Color { r: (c.r - 1) as u8, g: (c.g + 1) as u8, b: c.b }
    } else if c.g > 0 {
        Color { r: c.r, g: (c.g - 1) as u8, b: (c.b + 1) as u8 }
    } else if c.b > 0 {
        Color { r: (c.r + 1) as u8, g: c.g, b: (c.b - 1) as u8 }
    } else {
        c
    }
}

/// One modulation step around the six-color wheel: three saturating
/// adjustments applied in sequence, each reading the state the
/// previous one left.
pub open spec fn rygcbm_cycle_step(c: Color) -> Color {
    let c1 = if c.r == 255 {
        if c.b > 0 {
            Color { r: c.r, g: c.g, b: (c.b - 1) as u8 }
        } else if c.g < 255 {
            Color { r: c.r, g: (c.g + 1) as u8, b: c.b }
        } else {
            c
        }
    } else {
        c
    };
    let c2 = if c1.g == 255 {
        if c1.r > 0 {
            Color { r: (c1.r - 1) as u8, g: c1.g, b: c1.b }
        } else if c1.b < 255 {
            Color { r: c1.r, g: c1.g, b: (c1.b + 1) as u8 }
        } else {
            c1
        }
    } else {
        c1
    };
    if c2.b == 255 {
        if c2.g > 0 {
            Color { r: c2.r, g: (c2.g - 1) as u8, b: c2.b }
        } else if c2.r < 255 {
            Color { r: (c2.r + 1) as u8, g: c2.g, b: c2.b }
        } else {
            c2
        }
    } else {
        c2
    }
}

/// One modulation step of either palette.
pub open spec fn cyclical_step(c: Color, opt: CyclicalModulatorOpt) -> Color {
    match opt {
        CyclicalModulatorOpt::Rgb(_) => rgb_cycle_step(c),
        CyclicalModulatorOpt::Rygcbm(_) => rygcbm_cycle_step(c),
    }
}

/// A color that slowly walks its palette's cycle, one step per frame.
#[derive(Clone, Copy, Debug, PartialEq, Eq, Structural)]
pub struct CyclicalModulator {
    pub color_state: Color,
    pub opt: CyclicalModulatorOpt,
}

impl CyclicalModulator {
    /// The three-color palette keeps one unit of intensity split over
    /// its channels; the color wheel needs no such bound, every step
    /// there being guarded.
    pub open spec fn wf(&self) -> bool {
        match self.opt {
            CyclicalModulatorOpt::Rgb(_) => self.color_state.r + self.color_state.g
                + self.color_state.b <= 255,
            CyclicalModulatorOpt::Rygcbm(_) => true,
        }
    }

    /// A modulator starting at the palette's first color.
    pub fn new(opt: CyclicalModulatorOpt) -> (m: Self)
        ensures
            m.opt == opt,
            m.color_state == cyclical_opt_color(opt),
            m.wf(),
    {
        Self { color_state: opt.color(), opt }
    }

    /// The modulator's current color.
    pub fn color(&self) -> (c: Color)
        ensures
            c == self.color_state,
    {
        self.color_state
    }

    /// Rewind the modulator to the palette's first color.
    pub fn reset(&mut self)
        ensures
            final(self).opt == old(self).opt,
            final(self).color_state == cyclical_opt_color(old(self).opt),
            final(self).wf(),
    {
        self.color_state = self.opt.color();
    }

    /// Advance the color one step along its palette's cycle.
    pub fn modulate(&mut self)
        requires
            old(self).wf(),
        ensures
            final(self).opt == old(self).opt,
            final(self).color_state == cyclical_step(old(self).color_state, old(self).opt),
            final(self).wf(),
    {
        match self.opt {
            CyclicalModulatorOpt::Rygcbm(_) => {
                if self.color_state.r == u8::MAX {
                    if self.color_state.b > 0 {
                        self.color_state.b = self.color_state.b - 1;
                    } else if self.color_state.g < u8::MAX {
                        self.color_state.g = self.color_state.g + 1;
                    }
                }
                if self.color_state.g == u8::MAX {
                    if self.color_state.r > 0 {
                        self.color_state.r = self.color_state.r - 1;
                    } else if self.color_state.b < u8::MAX {
                        self.color_state.b = self.color_state.b + 1;
                    }
                }
                if self.color_state.b == u8::MAX {
                    if self.color_state.g > 0 {
                        self.color_state.g = self.color_state.g - 1;
                    } else if self.color_state.r < u8::MAX {
                        self.color_state.r = self.color_state.r + 1;
                    }
                }
            },
            CyclicalModulatorOpt::Rgb(_) => {
                if self.color_state.r > 0 && self.color_state.b == 0 {
                    self.color_state.r = self.color_state.r - 1;
                    self.color_state.g = self.color_state.g + 1;
                } else if self.color_state.g > 0 {
                    self.color_state.g = self.color_state.g - 1;
                    self.color_state.b = self.color_state.b + 1;
                } else if self.color_state.b > 0 {
                    self.color_state.b = self.color_state.b - 1;
                    self.color_state.r = self.color_state.r + 1;
                }
            },
        }
    }
}

/// A cell's coloring state: whether it was live on the previous
/// frame, and the color it was last painted with.
#[derive(Clone, Copy, Debug, PartialEq, Eq, Structural)]
pub struct CellState {
    pub state: bool,
    pub color: Color,
}

/// The per-cell coloring memory of a dynamic draw mode.
pub struct CellStates {
    pub cells: Vec<Vec<CellState>>,
}

/// The nested coloring buffer read as rows of cell states.
pub open spec fn states_view(rs: Seq<Vec<CellState>>) -> Seq<Seq<CellState>> {
    rs.map_values(|r: Vec<CellState>| r@)
}

/// Writing one cell state touches exactly that cell of the nested
/// view.
proof fn lemma_states_after_set(
    pre: Seq<Vec<CellState>>,
    post: Seq<Vec<CellState>>,
    x: int,
    y: int,
    v: CellState,
)
    requires
        0 <= y < pre.len(),
        0 <= x < pre[y]@.len(),
        post.len() == pre.len(),
        post[y]@ == pre[y]@.update(x, v),
        post == pre.update(y, post[y]),
    ensures
        forall|jj: int|
            0 <= jj < pre.len() ==> (#[trigger] states_view(post)[jj]).len() == states_view(
                pre,
            )[jj].len(),
        forall|jj: int, ii: int|
            0 <= jj < pre.len() && 0 <= ii < pre[jj]@.len() && (jj != y || ii != x)
                ==> #[trigger] states_view(post)[jj][ii] == states_view(pre)[jj][ii],
        states_view(post)[y][x] == v,
{
}

impl CellStates {
    /// The buffer holds one state per grid cell.
    pub open spec fn wf(&self, w: int, h: int) -> bool {
        &&& self.cells@.len() == h
        &&& forall|j: int| 0 <= j < h ==> (#[trigger] self.cells@[j])@.len() == w
    }

    /// A buffer of dead cells, all painted `color`.
    fn new(color: Color, grid_size: GridPoint) -> (cs: Self)
        ensures
            cs.wf(grid_size.0 as int, grid_size.1 as int),
            forall|j: int, i: int|
                0 <= j < grid_size.1 as int && 0 <= i < grid_size.0 as int
                    ==> #[trigger] states_view(cs.cells@)[j][i] == (CellState {
                    state: false,
                    color,
                }),
    {
        let w = grid_size.0 as usize;
        let h = grid_size.1 as usize;
        let mut rows: Vec<Vec<CellState>> = Vec::new();
        let mut j: usize = 0;
        while j < h
            invariant
                0 <= j <= h,
                rows@.len() == j as int,
                forall|jj: int|
                    0 <= jj < j as int ==> (#[trigger] rows@[jj])@ =~= Seq::new(
                        w as nat,
                        |i: int| CellState { state: false, color },
                    ),
            decreases h - j,
        {
            let mut row: Vec<CellState> = Vec::new();
            let mut i: usize = 0;
            while i < w
                invariant
                    0 <= i <= w,
                    row@.len() == i as int,
                    forall|ii: int|
                        0 <= ii < i as int ==> #[trigger] row@[ii] == (CellState {
                            state: false,
                            color,
                        }),
                decreases w - i,
            {
                row.push(CellState { state: false, color });
                i += 1;
            }
            proof {
                assert(row@ =~= Seq::new(w as nat, |ii: int| CellState { state: false, color }));
            }
            rows.push(row);
            j += 1;
        }
        let cs = Self { cells: rows };
        proof {
            assert forall|j2: int, i2: int|
                0 <= j2 < grid_size.1 as int && 0 <= i2 < grid_size.0 as int implies #[trigger] states_view(
                cs.cells@,
            )[j2][i2] == (CellState { state: false, color }) by {}
        }
        cs
    }

    /// Forget every cell: dead again, all painted `color`.
    fn reset(&mut self, color: Color)
        ensures
            final(self).cells@.len() == old(self).cells@.len(),
            forall|j: int|
                0 <= j < old(self).cells@.len() ==> (#[trigger] final(self).cells@[j])@.len()
                    == old(self).cells@[j]@.len(),
            forall|j: int, i: int|
                0 <= j < old(self).cells@.len() && 0 <= i < old(self).cells@[j]@.len()
                    ==> #[trigger] states_view(final(self).cells@)[j][i] == (CellState {
                    state: false,
                    color,
                }),
    {
        let mut j: usize = 0;
        while j < self.cells.len()
            invariant
                0 <= j <= self.cells@.len(),
                self.cells@.len() == old(self).cells@.len(),
                forall|jj: int|
                    0 <= jj < old(self).cells@.len() ==> (#[trigger] self.cells@[jj])@.len()
                        == old(self).cells@[jj]@.len(),
                forall|jj: int, ii: int|
                    0 <= jj < j as int && 0 <= ii < old(self).cells@[jj]@.len()
                        ==> #[trigger] states_view(self.cells@)[jj][ii] == (CellState {
                        state: false,
                        color,
                    }),
            decreases self.cells@.len() - j,
        {
            let mut i: usize = 0;
            let row_len = self.cells[j].len();
            while i < row_len
                invariant
                    0 <= i <= row_len,
                    0 <= j < self.cells@.len(),
                    row_len == old(self).cells@[j as int]@.len(),
                    self.cells@.len() == old(self).cells@.len(),
                    forall|jj: int|
                        0 <= jj < old(self).cells@.len() ==> (#[trigger] self.cells@[jj])@.len()
                            == old(self).cells@[jj]@.len(),
                    forall|jj: int, ii: int|
                        0 <= jj < j as int && 0 <= ii < old(self).cells@[jj]@.len()
                            ==> #[trigger] states_view(self.cells@)[jj][ii] == (CellState {
                            state: false,
                            color,
                        }),
                    forall|ii: int|
                        0 <= ii < i as int ==> #[trigger] states_view(self.cells@)[j as int][ii]
                            == (CellState { state: false, color }),
                decreases row_len - i,
            {
                let ghost pre = self.cells@;
                self.cells[j][i] = CellState { state: false, color };
                proof {
                    lemma_states_after_set(
                        pre,
                        self.cells@,
                        i as int,
                        j as int,
                        CellState { state: false, color },
                    );
                }
                i += 1;
            }
            j += 1;
        }
    }
}

/// What a dynamic draw mode answers for one cell: a newly live cell
/// takes the fresh color, a cell that stays live keeps the color it
/// was born with, and a dead cell merely forgets that it was live.
pub open spec fn touch_cell(cs: CellState, live: bool, fresh: Color) -> CellState {
    if live {
        if !cs.state {
            CellState { state: true, color: fresh }
        } else {
            cs
        }
    } else {
        CellState { state: false, color: cs.color }
    }
}

/// Dynamic cell coloring that paints newly born cells with a
/// cyclically modulated color.
pub struct NewCellColorCyclical {
    pub cyclical_modulator: CyclicalModulator,
    pub cell_states: CellStates,
}

impl NewCellColorCyclical {
    /// A coloring for a grid of size `grid_size`, starting at the
    /// modulator's current color.
    pub fn new(cyclical_modulator: CyclicalModulator, grid_size: GridPoint) -> (n: Self)
        ensures
            n.cyclical_modulator == cyclical_modulator,
            n.cell_states.wf(grid_size.0 as int, grid_size.1 as int),
            forall|j: int, i: int|
                0 <= j < grid_size.1 as int && 0 <= i < grid_size.0 as int
                    ==> #[trigger] states_view(n.cell_states.cells@)[j][i] == (CellState {
                    state: false,
                    color: cyclical_modulator.color_state,
                }),
    {
        Self { cell_states: CellStates::new(cyclical_modulator.color(), grid_size), cyclical_modulator }
    }

    /// The color to paint the cell at `point` with, given whether it
    /// is live this frame; updates the cell's coloring memory.
    pub fn get_cell_color(&mut self, point: GridPoint, cell: bool) -> (c: Color)
        requires
            0 <= (point.1 as int) < old(self).cell_states.cells@.len(),
            0 <= (point.0 as int) < old(self).cell_states.cells@[point.1 as int]@.len(),
        ensures
            final(self).cyclical_modulator == old(self).cyclical_modulator,
            final(self).cell_states.cells@.len() == old(self).cell_states.cells@.len(),
            forall|j: int|
                0 <= j < old(self).cell_states.cells@.len() ==> (#[trigger] final(self).cell_states.cells@[j])@.len() == old(self).cell_states.cells@[j]@.len(),
            states_view(final(self).cell_states.cells@) =~~= states_view(
                old(self).cell_states.cells@,
            ).update(
                point.1 as int,
                states_view(old(self).cell_states.cells@)[point.1 as int].update(
                    point.0 as int,
                    touch_cell(
                        states_view(old(self).cell_states.cells@)[point.1 as int][point.0 as int],
                        cell,
                        old(self).cyclical_modulator.color_state,
                    ),
                ),
            ),
            c == touch_cell(
                states_view(old(self).cell_states.cells@)[point.1 as int][point.0 as int],
                cell,
                old(self).cyclical_modulator.color_state,
            ).color,
    {
        let x = point.0 as usize;
        let y = point.1 as usize;
        let entry: CellState = self.cell_states.cells[y][x];
        let fresh = self.cyclical_modulator.color();
        let updated: CellState = if cell {
            if !entry.state {
                CellState { state: true, color: fresh }
            } else {
                entry
            }
        } else {
            CellState { state: false, color: entry.color }
        };
        self.cell_states.cells[y][x] = updated;
        proof {
            lemma_states_after_set(
                old(self).cell_states.cells@,
                self.cell_states.cells@,
                x as int,
                y as int,
                updated,
            );
            let pre = states_view(old(self).cell_states.cells@);
            let post = states_view(self.cell_states.cells@);
            let goal = pre.update(
                point.1 as int,
                pre[point.1 as int].update(point.0 as int, updated),
            );
            assert forall|j: int| 0 <= j < pre.len() implies post[j] =~= goal[j] by {
                assert forall|i2: int| 0 <= i2 < pre[j].len() implies post[j][i2] == goal[j][i2] by {}
            }
            assert(post =~~= goal);
        }
        updated.color
    }

    /// Advance the fresh-cell color one modulation step.
    pub fn update(&mut self)
        requires
            old(self).cyclical_modulator.wf(),
        ensures
            final(self).cell_states.cells@ == old(self).cell_states.cells@,
            final(self).cyclical_modulator.opt == old(self).cyclical_modulator.opt,
            final(self).cyclical_modulator.color_state == cyclical_step(
                old(self).cyclical_modulator.color_state,
                old(self).cyclical_modulator.opt,
            ),
            final(self).cyclical_modulator.wf(),
    {
        self.cyclical_modulator.modulate();
    }

    /// Rewind the modulator and forget every cell.
    pub fn reset(&mut self)
        ensures
            final(self).cyclical_modulator.opt == old(self).cyclical_modulator.opt,
            final(self).cyclical_modulator.color_state == cyclical_opt_color(
                old(self).cyclical_modulator.opt,
            ),
            final(self).cyclical_modulator.wf(),
            final(self).cell_states.cells@.len() == old(self).cell_states.cells@.len(),
            forall|j: int, i: int|
                0 <= j < old(self).cell_states.cells@.len() && 0 <= i < old(self).cell_states.cells@[j]@.len() ==> #[trigger] states_view(
                    final(self).cell_states.cells@,
                )[j][i] == (CellState {
                    state: false,
                    color: cyclical_opt_color(old(self).cyclical_modulator.opt),
                }),
    {
        self.cyclical_modulator.reset();
        let color = self.cyclical_modulator.color();
        self.cell_states.reset(color);
    }
}

/// One frame of heat-map fading: the hot channel cools by one, the
/// cold channel warms by one, both saturating.
pub open spec fn heat_fade(cs: CellState, hot: Rgb, cold: Rgb) -> CellState {
    let c = cs.color;
    let cooled = match hot {
        Rgb::Red => if c.r > 0 {
            Color { r: (c.r - 1) as u8, g: c.g, b: c.b }
        } else {
            c
        },
        Rgb::Green => if c.g > 0 {
            Color { r: c.r, g: (c.g - 1) as u8, b: c.b }
        } else {
            c
        },
        Rgb::Blue => if c.b > 0 {
            Color { r: c.r, g: c.g, b: (c.b - 1) as u8 }
        } else {
            c
        },
    };
    let warmed = match cold {
        Rgb::Red => if cooled.r < 255 {
            Color { r: (cooled.r + 1) as u8, g: cooled.g, b: cooled.b }
        } else {
            cooled
        },
        Rgb::Green => if cooled.g < 255 {
            Color { r: cooled.r, g: (cooled.g + 1) as u8, b: cooled.b }
        } else {
            cooled
        },
        Rgb::Blue => if cooled.b < 255 {
            Color { r: cooled.r, g: cooled.g, b: (cooled.b + 1) as u8 }
        } else {
            cooled
        },
    };
    CellState { state: cs.state, color: warmed }
}

/// Dynamic cell coloring that paints newly born cells hot and fades
/// every cell toward the cold color, one step per frame.
pub struct NewCellColorHeatMap {
    pub cell_states: CellStates,
    pub hot: Rgb,
    pub cold: Rgb,
}

impl NewCellColorHeatMap {
    /// A heat map for a grid of size `grid_size`.
    pub fn new(hot: Rgb, cold: Rgb, grid_size: GridPoint) -> (n: Self)
        ensures
            n.hot == hot,
            n.cold == cold,
            n.cell_states.wf(grid_size.0 as int, grid_size.1 as int),
            forall|j: int, i: int|
                0 <= j < grid_size.1 as int && 0 <= i < grid_size.0 as int
                    ==> #[trigger] states_view(n.cell_states.cells@)[j][i] == (CellState {
                    state: false,
                    color: rgb_color(hot),
                }),
    {
        Self { cell_states: CellStates::new(hot.color(), grid_size), hot, cold }
    }

    /// The color to paint the cell at `point` with, given whether it
    /// is live this frame; updates the cell's coloring memory.
    pub fn get_cell_color(&mut self, point: GridPoint, cell: bool) -> (c: Color)
        requires
            0 <= (point.1 as int) < old(self).cell_states.cells@.len(),
            0 <= (point.0 as int) < old(self).cell_states.cells@[point.1 as int]@.len(),
        ensures
            final(self).hot == old(self).hot,
            final(self).cold == old(self).cold,
            final(self).cell_states.cells@.len() == old(self).cell_states.cells@.len(),
            forall|j: int|
                0 <= j < old(self).cell_states.cells@.len() ==> (#[trigger] final(self).cell_states.cells@[j])@.len() == old(self).cell_states.cells@[j]@.len(),
            states_view(final(self).cell_states.cells@) =~~= states_view(
                old(self).cell_states.cells@,
            ).update(
                point.1 as int,
                states_view(old(self).cell_states.cells@)[point.1 as int].update(
                    point.0 as int,
                    touch_cell(
                        states_view(old(self).cell_states.cells@)[point.1 as int][point.0 as int],
                        cell,
                        rgb_color(old(self).hot),
                    ),
                ),
            ),
            c == touch_cell(
                states_view(old(self).cell_states.cells@)[point.1 as int][point.0 as int],
                cell,
                rgb_color(old(self).hot),
            ).color,
    {
        let x = point.0 as usize;
        let y = point.1 as usize;
        let entry: CellState = self.cell_states.cells[y][x];
        let fresh = self.hot.color();
        let updated: CellState = if cell {
            if !entry.state {
                CellState { state: true, color: fresh }
            } else {
                entry
            }
        } else {
            CellState { state: false, color: entry.color }
        };
        self.cell_states.cells[y][x] = updated;
        proof {
            lemma_states_after_set(
                old(self).cell_states.cells@,
                self.cell_states.cells@,
                x as int,
                y as int,
                updated,
            );
            let pre = states_view(old(self).cell_states.cells@);
            let post = states_view(self.cell_states.cells@);
            let goal = pre.update(
                point.1 as int,
                pre[point.1 as int].update(point.0 as int, updated),
            );
            assert forall|j: int| 0 <= j < pre.len() implies post[j] =~= goal[j] by {
                assert forall|i2: int| 0 <= i2 < pre[j].len() implies post[j][i2] == goal[j][i2] by {}
            }
            assert(post =~~= goal);
        }
        updated.color
    }

    /// Fade every cell one step from the hot channel toward the cold
    /// one.
    pub fn update(&mut self)
        ensures
            final(self).hot == old(self).hot,
            final(self).cold == old(self).cold,
            final(self).cell_states.cells@.len() == old(self).cell_states.cells@.len(),
            forall|j: int|
                0 <= j < old(self).cell_states.cells@.len() ==> (#[trigger] final(self).cell_states.cells@[j])@.len() == old(self).cell_states.cells@[j]@.len(),
            forall|j: int, i: int|
                0 <= j < old(self).cell_states.cells@.len() && 0 <= i < old(self).cell_states.cells@[j]@.len() ==> #[trigger] states_view(
                    final(self).cell_states.cells@,
                )[j][i] == heat_fade(
                    states_view(old(self).cell_states.cells@)[j][i],
                    old(self).hot,
                    old(self).cold,
                ),
    {
        let ghost hot0 = self.hot;
        let ghost cold0 = self.cold;
        let mut j: usize = 0;
        while j < self.cell_states.cells.len()
            invariant
                0 <= j <= self.cell_states.cells@.len(),
                self.hot == old(self).hot,
                self.cold == old(self).cold,
                self.cell_states.cells@.len() == old(self).cell_states.cells@.len(),
                forall|jj: int|
                    0 <= jj < old(self).cell_states.cells@.len() ==> (#[trigger] self.cell_states.cells@[jj])@.len()
                        == old(self).cell_states.cells@[jj]@.len(),
                forall|jj: int, ii: int|
                    0 <= jj < j as int && 0 <= ii < old(self).cell_states.cells@[jj]@.len()
                        ==> #[trigger] states_view(self.cell_states.cells@)[jj][ii] == heat_fade(
                        states_view(old(self).cell_states.cells@)[jj][ii],
                        old(self).hot,
                        old(self).cold,
                    ),
                forall|jj: int, ii: int|
                    (j as int) <= jj < old(self).cell_states.cells@.len() && 0 <= ii < old(self).cell_states.cells@[jj]@.len() ==> #[trigger] states_view(
                        self.cell_states.cells@,
                    )[jj][ii] == states_view(old(self).cell_states.cells@)[jj][ii],
            decreases self.cell_states.cells@.len() - j,
        {
            let mut i: usize = 0;
            let row_len = self.cell_states.cells[j].len();
            while i < row_len
                invariant
                    0 <= i <= row_len,
                    0 <= j < self.cell_states.cells@.len(),
                    row_len == old(self).cell_states.cells@[j as int]@.len(),
                    self.hot == old(self).hot,
                    self.cold == old(self).cold,
                    self.cell_states.cells@.len() == old(self).cell_states.cells@.len(),
                    forall|jj: int|
                        0 <= jj < old(self).cell_states.cells@.len() ==> (
                        #[trigger] self.cell_states.cells@[jj])@.len() == old(self).cell_states.cells@[jj]@.len(),
                    forall|jj: int, ii: int|
                        0 <= jj < j as int && 0 <= ii < old(self).cell_states.cells@[jj]@.len()
                            ==> #[trigger] states_view(self.cell_states.cells@)[jj][ii]
                            == heat_fade(
                            states_view(old(self).cell_states.cells@)[jj][ii],
                            old(self).hot,
                            old(self).cold,
                        ),
                    forall|ii: int|
                        0 <= ii < i as int ==> #[trigger] states_view(
                            self.cell_states.cells@,
                        )[j as int][ii] == heat_fade(
                            states_view(old(self).cell_states.cells@)[j as int][ii],
                            old(self).hot,
                            old(self).cold,
                        ),
                    forall|ii: int|
                        (i as int) <= ii < row_len ==> #[trigger] states_view(
                            self.cell_states.cells@,
                        )[j as int][ii] == states_view(old(self).cell_states.cells@)[j as int][ii],
                    forall|jj: int, ii: int|
                        (j as int) < jj < old(self).cell_states.cells@.len() && 0 <= ii < old(self).cell_states.cells@[jj]@.len() ==> #[trigger] states_view(
                            self.cell_states.cells@,
                        )[jj][ii] == states_view(old(self).cell_states.cells@)[jj][ii],
                decreases row_len - i,
            {
                let entry: CellState = self.cell_states.cells[j][i];
                let mut c = entry.color;
                match self.hot {
                    Rgb::Red => {
                        if c.r > 0 {
                            c.r = c.r - 1;
                        }
                    },
                    Rgb::Green => {
                        if c.g > 0 {
                            c.g = c.g - 1;
                        }
                    },
                    Rgb::Blue => {
                        if c.b > 0 {
                            c.b = c.b - 1;
                        }
                    },
                }
                match self.cold {
                    Rgb::Red => {
                        if c.r < u8::MAX {
                            c.r = c.r + 1;
                        }
                    },
                    Rgb::Green => {
                        if c.g < u8::MAX {
                            c.g = c.g + 1;
                        }
                    },
                    Rgb::Blue => {
                        if c.b < u8::MAX {
                            c.b = c.b + 1;
                        }
                    },
                }
                let ghost pre = self.cell_states.cells@;
                self.cell_states.cells[j][i] = CellState { state: entry.state, color: c };
                proof {
                    lemma_states_after_set(
                        pre,
                        self.cell_states.cells@,
                        i as int,
                        j as int,
                        CellState { state: entry.state, color: c },
                    );
                }
                i += 1;
            }
            j += 1;
        }
    }

    /// Forget every cell and repaint the buffer with the hot color.
    pub fn reset(&mut self)
        ensures
            final(self).hot == old(self).hot,
            final(self).cold == old(self).cold,
            final(self).cell_states.cells@.len() == old(self).cell_states.cells@.len(),
            forall|j: int, i: int|
                0 <= j < old(self).cell_states.cells@.len() && 0 <= i < old(self).cell_states.cells@[j]@.len() ==> #[trigger] states_view(
                    final(self).cell_states.cells@,
                )[j][i] == (CellState { state: false, color: rgb_color(old(self).hot) }),
    {
        let color = self.hot.color();
        self.cell_states.reset(color);
    }
}

/// How the renderer colors live cells: one fixed color, a cyclically
/// modulated birth color, or a heat map.
#[derive(Clone, Copy, Debug)]
pub enum DrawOption {
    Static(Color),
    DynamicCyclical(CyclicalModulatorOpt),
    DynamicHeatMap { hot: Rgb, cold: Rgb },
}

/// The window settings a renderer is built from.
#[derive(Debug)]
pub struct VideoSubsystemStage {
    pub window_name: String,
    pub window_size: (u32, u32),
}

impl Clone for VideoSubsystemStage {
    /// A copy with the same window name and size.
    fn clone(&self) -> (r: Self)
        ensures
            r.window_name@ == self.window_name@,
            r.window_size == self.window_size,
    {
        Self { window_name: self.window_name.clone(), window_size: self.window_size }
    }
}

} // verus!
