//! Frame pacing, input mapping, drawing strokes, and cell coloring.

use conways_game_of_life::input_pump::{Key, MouseButton, UiEvent};
use conways_game_of_life::renderer::{
    Color, CyclicalModulator, CyclicalModulatorOpt, NewCellColorCyclical, NewCellColorHeatMap,
    Rgb, Rygcbm,
};
use conways_game_of_life::{
    FrameRegulator, Grid, Grid1dVec, Input, InputPump, Mouse, ZeroFps,
};

#[test]
fn zero_fps_is_refused() {
    assert_eq!(FrameRegulator::fps(0), Err(ZeroFps));
}

#[test]
fn fps_sets_the_frame_duration() {
    let fr = FrameRegulator::fps(4).unwrap();
    assert_eq!(fr.frame_duration_nanos, 250_000_000);
    let fr = FrameRegulator::new(1_000);
    assert_eq!(fr.frame_duration_nanos, 1_000);
}

#[test]
fn sleep_deficit_is_the_remaining_frame_time() {
    let fr = FrameRegulator::new(1_000);
    assert_eq!(fr.sleep_deficit(0), 1_000);
    assert_eq!(fr.sleep_deficit(400), 600);
    assert_eq!(fr.sleep_deficit(1_000), 0);
    assert_eq!(fr.sleep_deficit(5_000), 0);
}

fn pump() -> InputPump {
    InputPump::new(Mouse { x: 10, y: 20, left: false, right: false })
}

#[test]
fn quit_events_map_to_quit() {
    let mut p = pump();
    assert_eq!(p.process_event(UiEvent::Quit), Input::Quit);
    assert_eq!(p.process_event(UiEvent::KeyUp { key: Some(Key::Escape) }), Input::Quit);
}

#[test]
fn key_events_map_to_inputs() {
    let mut p = pump();
    assert_eq!(
        p.process_event(UiEvent::KeyDown { key: Some(Key::Equals) }),
        Input::ZoomCamera { zoom: 1 }
    );
    assert_eq!(
        p.process_event(UiEvent::KeyDown { key: Some(Key::Minus) }),
        Input::ZoomCamera { zoom: -1 }
    );
    assert_eq!(p.process_event(UiEvent::KeyDown { key: Some(Key::Return) }), Input::OneFrame);
    assert_eq!(p.process_event(UiEvent::KeyDown { key: Some(Key::R) }), Input::Run);
    assert_eq!(p.process_event(UiEvent::KeyDown { key: None }), Input::Run);
    assert_eq!(p.process_event(UiEvent::KeyUp { key: Some(Key::R) }), Input::Reset);
    assert_eq!(p.process_event(UiEvent::KeyUp { key: Some(Key::Space) }), Input::Pause);
    assert_eq!(p.process_event(UiEvent::KeyUp { key: Some(Key::Minus) }), Input::Run);
    assert_eq!(p.process_event(UiEvent::KeyUp { key: None }), Input::Run);
    assert_eq!(p.process_event(UiEvent::Other), Input::Run);
}

#[test]
fn left_button_starts_drawing_at_the_pointer() {
    let mut p = pump();
    let inp = p.process_event(UiEvent::MouseButtonDown { button: MouseButton::Left });
    assert_eq!(inp, Input::DrawCell { point: (10, 20) });
    assert!(p.mouse().left);
    // Releasing the button ends the stroke.
    let inp = p.process_event(UiEvent::MouseButtonUp { button: MouseButton::Left });
    assert_eq!(inp, Input::Run);
    assert!(!p.mouse().left);
    assert!(p.draw_state.is_none());
}

#[test]
fn right_drag_moves_the_camera() {
    let mut p = pump();
    assert_eq!(
        p.process_event(UiEvent::MouseButtonDown { button: MouseButton::Right }),
        Input::Run
    );
    let inp = p.process_event(UiEvent::MouseMotion { x: 15, y: 25, xrel: 5, yrel: 5 });
    assert_eq!(inp, Input::MoveCamera { x: -5, y: -5 });
    assert_eq!(p.mouse().position(), (15, 25));
    assert_eq!(
        p.process_event(UiEvent::MouseButtonUp { button: MouseButton::Right }),
        Input::Run
    );
    assert!(!p.mouse().right);
}

#[test]
fn left_drag_keeps_drawing() {
    let mut p = pump();
    p.process_event(UiEvent::MouseButtonDown { button: MouseButton::Left });
    let inp = p.process_event(UiEvent::MouseMotion { x: 11, y: 21, xrel: 1, yrel: 1 });
    assert_eq!(inp, Input::DrawCell { point: (11, 21) });
}

#[test]
fn wheel_zooms() {
    let mut p = pump();
    assert_eq!(p.process_event(UiEvent::MouseWheel { y: 3 }), Input::ZoomCamera { zoom: 3 });
}

#[test]
fn draw_toggles_then_strokes_a_line() {
    let mut p = pump();
    let mut grid = Grid1dVec::empty((8, 8));
    // First touch toggles the dead cell live and opens a stroke.
    p.draw(&mut grid, (2, 2), true).unwrap();
    assert!(grid.get_cell((2, 2)));
    assert_eq!(p.draw_state, Some(((2, 2), true)));
    // The same cell again changes nothing.
    p.draw(&mut grid, (2, 2), true).unwrap();
    assert!(grid.get_cell((2, 2)));
    // A moved pointer draws the whole segment.
    p.draw(&mut grid, (5, 2), true).unwrap();
    assert!(grid.get_cell((3, 2)) && grid.get_cell((4, 2)) && grid.get_cell((5, 2)));
    assert_eq!(p.draw_state, Some(((5, 2), true)));
    // Leaving the window ends the stroke.
    p.draw(&mut grid, (5, 2), false).unwrap();
    assert!(p.draw_state.is_none());
    // A fresh touch on a live cell erases.
    p.draw(&mut grid, (2, 2), true).unwrap();
    assert!(!grid.get_cell((2, 2)));
    assert_eq!(p.draw_state, Some(((2, 2), false)));
}

#[test]
fn primary_colors_have_their_values() {
    assert_eq!(Rgb::Red.color(), Color { r: 255, g: 0, b: 0 });
    assert_eq!(Rgb::Green.color(), Color { r: 0, g: 255, b: 0 });
    assert_eq!(Rgb::Blue.color(), Color { r: 0, g: 0, b: 255 });
    assert_eq!(Rygcbm::Yellow.color(), Color { r: 255, g: 255, b: 0 });
    assert_eq!(Rygcbm::Magenta.color(), Color { r: 255, g: 0, b: 255 });
    assert_eq!(Color::rgb(1, 2, 3), Color { r: 1, g: 2, b: 3 });
}

#[test]
fn rgb_modulator_drains_one_channel_into_the_next() {
    let mut m = CyclicalModulator::new(CyclicalModulatorOpt::Rgb(Rgb::Red));
    assert_eq!(m.color(), Color { r: 255, g: 0, b: 0 });
    m.modulate();
    assert_eq!(m.color(), Color { r: 254, g: 1, b: 0 });
    for _ in 0..254 {
        m.modulate();
    }
    assert_eq!(m.color(), Color { r: 0, g: 255, b: 0 });
    m.reset();
    assert_eq!(m.color(), Color { r: 255, g: 0, b: 0 });
}

#[test]
fn rygcbm_modulator_walks_toward_yellow() {
    let mut m = CyclicalModulator::new(CyclicalModulatorOpt::Rygcbm(Rygcbm::Red));
    m.modulate();
    // From pure red the green channel rises; the following check on
    // the green channel also catches a modulator that stands still.
    assert_eq!(m.color(), Color { r: 255, g: 1, b: 0 });
    for _ in 0..253 {
        m.modulate();
    }
    assert_eq!(m.color(), Color { r: 255, g: 254, b: 0 });
    // The step that saturates green already starts draining red: the
    // wheel never rests on pure yellow.
    m.modulate();
    assert_eq!(m.color(), Color { r: 254, g: 255, b: 0 });
}

#[test]
fn cyclical_coloring_remembers_birth_colors() {
    let modulator = CyclicalModulator::new(CyclicalModulatorOpt::Rgb(Rgb::Red));
    let mut coloring = NewCellColorCyclical::new(modulator, (4, 4));
    let red = Color { r: 255, g: 0, b: 0 };
    // A newly live cell is painted with the current color.
    assert_eq!(coloring.get_cell_color((1, 1), true), red);
    // The fresh color moves on, but the cell keeps its birth color.
    coloring.update();
    assert_eq!(coloring.get_cell_color((1, 1), true), red);
    let faded = Color { r: 254, g: 1, b: 0 };
    assert_eq!(coloring.get_cell_color((2, 2), true), faded);
    // A dead cell keeps its last color but forgets it was live, so a
    // rebirth repaints it.
    assert_eq!(coloring.get_cell_color((1, 1), false), red);
    coloring.update();
    let next = Color { r: 253, g: 2, b: 0 };
    assert_eq!(coloring.get_cell_color((1, 1), true), next);
    // Resetting rewinds the palette and every cell.
    coloring.reset();
    assert_eq!(coloring.get_cell_color((2, 2), false), red);
}

#[test]
fn heat_map_fades_hot_cells_toward_cold() {
    let mut heat = NewCellColorHeatMap::new(Rgb::Red, Rgb::Blue, (3, 3));
    assert_eq!(heat.get_cell_color((0, 0), true), Color { r: 255, g: 0, b: 0 });
    heat.update();
    assert_eq!(heat.get_cell_color((0, 0), true), Color { r: 254, g: 0, b: 1 });
    heat.update();
    assert_eq!(heat.get_cell_color((0, 0), true), Color { r: 253, g: 0, b: 2 });
    heat.reset();
    assert_eq!(heat.get_cell_color((0, 0), false), Color { r: 255, g: 0, b: 0 });
}

#[test]
fn mouse_reports_its_position() {
    let m = Mouse { x: -3, y: 17, left: false, right: true };
    assert_eq!(m.position(), (-3, 17));
}
