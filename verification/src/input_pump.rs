//! Input mapping for the interactive visualizer: window events,
//! delivered by the embedding application as plain values, become
//! simulation inputs, and mouse drawing strokes become cell and line
//! writes on the grid.

use vstd::prelude::*;

use crate::grid::{grid_inv, same_but_cur, BResult, Grid};
use crate::rules;
use crate::GridPoint;

verus! {

/// The pointer state the input pump tracks between events.
#[derive(Debug, Clone, Copy, PartialEq, Eq, Structural)]
pub struct Mouse {
    pub x: i32,
    pub y: i32,
    pub left: bool,
    pub right: bool,
}

impl Mouse {
    /// The pointer's window position.
    pub fn position(&self) -> (p: (i32, i32))
        ensures
            p == (self.x, self.y),
    {
        (self.x, self.y)
    }
}

/// A key the visualizer reacts to.
#[derive(Debug, Clone, Copy, PartialEq, Eq, Structural)]
pub enum Key {
    Escape,
    Equals,
    Minus,
    Return,
    R,
    Space,
    Other,
}

/// A mouse button the visualizer reacts to.
#[derive(Debug, Clone, Copy, PartialEq, Eq, Structural)]
pub enum MouseButton {
    Left,
    Right,
    Other,
}

/// A window event, as plain values: what the embedding application
/// reads from its event queue and hands to the pump.
#[derive(Debug, Clone, Copy, PartialEq, Eq, Structural)]
pub enum UiEvent {
    Quit,
    KeyDown { key: Option<Key> },
    KeyUp { key: Option<Key> },
    MouseButtonDown { button: MouseButton },
    MouseButtonUp { button: MouseButton },
    MouseMotion { x: i32, y: i32, xrel: i32, yrel: i32 },
    MouseWheel { y: i32 },
    Other,
}

/// A simulation input: what one window event asks of the main loop.
#[derive(Debug, Clone, Copy, PartialEq, Eq)]
pub enum Input {
    DrawCell { point: (i32, i32) },
    MoveCamera { x: i32, y: i32 },
    OneFrame,
    Pause,
    Quit,
    Reset,
    Run,
    ZoomCamera { zoom: i32 },
}

/// The event-to-input mapping state: the tracked pointer and, while
/// the left button draws, the last drawn cell with the state being
/// painted.
#[derive(Debug, Clone, Copy, PartialEq, Eq)]
pub struct InputPump {
    pub draw_state: Option<(GridPoint, bool)>,
    pub mouse: Mouse,
}

/// The pump's transition on one event: the successor state and the
/// input handed to the main loop.
pub open spec fn pump_transition(p: InputPump, e: UiEvent) -> (InputPump, Input) {
    match e {
        UiEvent::Quit => (p, Input::Quit),
        UiEvent::KeyDown { key } => match key {
            Some(Key::Equals) => (p, Input::ZoomCamera { zoom: 1i32 }),
            Some(Key::Minus) => (p, Input::ZoomCamera { zoom: -1i32 }),
            Some(Key::Return) => (p, Input::OneFrame),
            Some(_) => (p, Input::Run),
            None => (p, Input::Run),
        },
        UiEvent::KeyUp { key } => match key {
            Some(Key::Escape) => (p, Input::Quit),
            Some(Key::R) => (p, Input::Reset),
            Some(Key::Space) => (p, Input::Pause),
            Some(_) => (p, Input::Run),
            None => (p, Input::Run),
        },
        UiEvent::MouseButtonDown { button } => match button {
            MouseButton::Left => (
                InputPump { mouse: Mouse { left: true, ..p.mouse }, ..p },
                Input::DrawCell { point: (p.mouse.x, p.mouse.y) },
            ),
            MouseButton::Right => (InputPump { mouse: Mouse { right: true, ..p.mouse }, ..p }, Input::Run),
            MouseButton::Other => (p, Input::Run),
        },
        UiEvent::MouseButtonUp { button } => match button {
            MouseButton::Left => (
                InputPump { draw_state: None, mouse: Mouse { left: false, ..p.mouse } },
                Input::Run,
            ),
            MouseButton::Right => (InputPump { mouse: Mouse { right: false, ..p.mouse }, ..p }, Input::Run),
            MouseButton::Other => (p, Input::Run),
        },
        UiEvent::MouseMotion { x, y, xrel, yrel } => {
            let moved = InputPump { mouse: Mouse { x, y, ..p.mouse }, ..p };
            if p.mouse.right {
                (moved, Input::MoveCamera { x: (-(xrel as int)) as i32, y: (-(yrel as int)) as i32 })
            } else if p.mouse.left {
                (moved, Input::DrawCell { point: (x, y) })
            } else {
                (moved, Input::Run)
            }
        },
        UiEvent::MouseWheel { y } => (p, Input::ZoomCamera { zoom: y }),
        UiEvent::Other => (p, Input::Run),
    }
}

impl InputPump {
    /// A pump with no stroke in progress and the given initial
    /// pointer state.
    pub fn new(mouse: Mouse) -> (p: Self)
        ensures
            p.draw_state is None,
            p.mouse == mouse,
    {
        Self { draw_state: None, mouse }
    }

    /// The tracked pointer.
    pub fn mouse(&self) -> (m: &Mouse)
        ensures
            *m == self.mouse,
    {
        &self.mouse
    }

    /// Turn one window event into a simulation input, updating the
    /// tracked pointer and stroke state.
    pub fn process_event(&mut self, event: UiEvent) -> (inp: Input)
        requires
            event matches UiEvent::MouseMotion { xrel, yrel, .. } ==> xrel > i32::MIN && yrel
                > i32::MIN,
        ensures
            (*final(self), inp) == pump_transition(*old(self), event),
    {
        match event {
            UiEvent::Quit => Input::Quit,
            UiEvent::KeyDown { key } => match key {
                Some(Key::Equals) => Input::ZoomCamera { zoom: 1 },
                Some(Key::Minus) => Input::ZoomCamera { zoom: -1 },
                Some(Key::Return) => Input::OneFrame,
                Some(_) => Input::Run,
                None => Input::Run,
            },
            UiEvent::KeyUp { key } => match key {
                Some(Key::Escape) => Input::Quit,
                Some(Key::R) => Input::Reset,
                Some(Key::Space) => Input::Pause,
                Some(_) => Input::Run,
                None => Input::Run,
            },
            UiEvent::MouseButtonDown { button } => match button {
                MouseButton::Left => {
                    self.mouse.left = true;
                    Input::DrawCell { point: (self.mouse.x, self.mouse.y) }
                },
                MouseButton::Right => {
                    self.mouse.right = true;
                    Input::Run
                },
                MouseButton::Other => Input::Run,
            },
            UiEvent::MouseButtonUp { button } => match button {
                MouseButton::Left => {
                    self.mouse.left = false;
                    self.draw_state = None;
                    Input::Run
                },
                MouseButton::Right => {
                    self.mouse.right = false;
                    Input::Run
                },
                MouseButton::Other => Input::Run,
            },
            UiEvent::MouseMotion { x, y, xrel, yrel } => {
                let was_right = self.mouse.right;
                let was_left = self.mouse.left;
                self.mouse.x = x;
                self.mouse.y = y;
                if was_right {
                    Input::MoveCamera { x: -xrel, y: -yrel }
                } else if was_left {
                    Input::DrawCell { point: (x, y) }
                } else {
                    Input::Run
                }
            },
            UiEvent::MouseWheel { y } => Input::ZoomCamera { zoom: y },
            UiEvent::Other => Input::Run,
        }
    }

    /// Apply one drawing stroke at `point`, which must lie on the
    /// grid: the first touch toggles the cell under the pointer and
    /// begins a stroke painting that state; a moved pointer draws a
    /// rasterized line from the previous cell.  Leaving the window
    /// ends the stroke.
    pub fn draw<G: Grid>(
        &mut self,
        grid: &mut G,
        point: GridPoint,
        mouse_in_window: bool,
    ) -> (r: BResult<()>)
        requires
            grid_inv(old(grid)),
            rules::point_in_bounds(
                point.0 as int,
                point.1 as int,
                old(grid).spec_width(),
                old(grid).spec_height(),
            ),
        ensures
            grid_inv(final(grid)),
            same_but_cur(*old(grid), *final(grid)),
            final(self).mouse == old(self).mouse,
            old(self).draw_state matches Some((prev, st)) ==> prev != point ==> {
                &&& final(grid).cur() =~~= rules::stamp_seg(
                    old(grid).cur(),
                    (prev.0 as int, prev.1 as int),
                    (point.0 as int, point.1 as int),
                    rules::seg_applied(
                        (prev.0 as int, prev.1 as int),
                        (point.0 as int, point.1 as int),
                        old(grid).spec_width(),
                        old(grid).spec_height(),
                    ),
                    st,
                )
                &&& (r is Ok <==> rules::seg_applied(
                    (prev.0 as int, prev.1 as int),
                    (point.0 as int, point.1 as int),
                    old(grid).spec_width(),
                    old(grid).spec_height(),
                ) == rules::seg_len((prev.0 as int, prev.1 as int), (point.0 as int, point.1 as int)))
                &&& final(self).draw_state == if mouse_in_window {
                    Some((point, st))
                } else {
                    Option::<(GridPoint, bool)>::None
                }
            },
            old(self).draw_state matches Some((prev, st)) ==> prev == point ==> {
                &&& final(grid).cur() == old(grid).cur()
                &&& r is Ok
                &&& final(self).draw_state == if mouse_in_window {
                    Some((prev, st))
                } else {
                    Option::<(GridPoint, bool)>::None
                }
            },
            old(self).draw_state is None ==> {
                let st = !old(grid).cur()[point.1 as int][point.0 as int];
                &&& final(grid).cur() =~~= rules::set_one(
                    old(grid).cur(),
                    point.0 as int,
                    point.1 as int,
                    st,
                )
                &&& r is Ok
                &&& final(self).draw_state == if mouse_in_window {
                    Some((point, st))
                } else {
                    Option::<(GridPoint, bool)>::None
                }
            },
    {
        let ret: BResult<()>;
        match self.draw_state {
            Some((prev, st)) => {
                if prev.0 != point.0 || prev.1 != point.1 {
                    ret = grid.set_line(prev, point, st);
                    self.draw_state = Some((point, st));
                } else {
                    ret = Ok(());
                }
            },
            None => {
                let st = !grid.get_cell_unchecked(point);
                self.draw_state = Some((point, st));
                ret = grid.set_cell(point, st);
            },
        }
        if !mouse_in_window {
            self.draw_state = None;
        }
        ret
    }
}

} // verus!
