use fullscreen_toggle::frame::{run_frame, run_frames, FrameInput};
use fullscreen_toggle::handlers::{handle_exit, rotate_cube, toggle_fullscreen, toggle_menu, ToggleOutcome};
use fullscreen_toggle::menu::{handle_menu_interaction, ButtonChange, ButtonKind, Interaction};
use fullscreen_toggle::window::{toggle_mode, WindowMode};
use fullscreen_toggle::world::{despawn_menus, setup, Entity, Role, Tint, World};

fn count(w: &World, r: Role) -> usize {
    w.entities.iter().filter(|e| e.role == r).count()
}

fn menu_count(w: &World) -> usize {
    w.entities
        .iter()
        .filter(|e| !matches!(e.role, Role::Camera | Role::Cube | Role::Light))
        .count()
}

fn tint_of(w: &World, r: Role) -> Tint {
    w.entities.iter().find(|e| e.role == r).unwrap().tint
}

fn press(b: ButtonKind, i: Interaction) -> ButtonChange {
    ButtonChange { button: b, interaction: i }
}

fn frame(f11: bool, esc: bool, tab: bool, delta: u64) -> FrameInput {
    FrameInput { fullscreen_key: f11, exit_key: esc, menu_key: tab, delta_nanos: delta, changes: Vec::new() }
}

#[test]
fn startup_scene_has_camera_cube_light() {
    let w = setup();
    assert_eq!(w.entities.len(), 3);
    assert_eq!(w.entities[0], Entity { role: Role::Camera, tint: Tint::Fixed });
    assert_eq!(w.entities[1].role, Role::Cube);
    assert_eq!(w.entities[2].role, Role::Light);
    assert_eq!(w.window, Some(WindowMode::Windowed));
    assert!(!w.menu_visible);
    assert_eq!(w.cube_yaw, 0);
    assert!(!w.exited);
}

#[test]
fn f11_twice_returns_to_windowed() {
    let mut w = setup();
    assert_eq!(toggle_fullscreen(&mut w, true), ToggleOutcome::Toggled);
    assert_eq!(w.window, Some(WindowMode::BorderlessFullscreen));
    assert_eq!(toggle_fullscreen(&mut w, true), ToggleOutcome::Toggled);
    assert_eq!(w.window, Some(WindowMode::Windowed));
}

#[test]
fn toggles_alternate_strictly() {
    let mut w = setup();
    for n in 1..=9 {
        toggle_fullscreen(&mut w, true);
        let want = if n % 2 == 1 { WindowMode::BorderlessFullscreen } else { WindowMode::Windowed };
        assert_eq!(w.window, Some(want));
    }
}

#[test]
fn fullscreen_collapses_to_windowed() {
    assert_eq!(toggle_mode(WindowMode::Fullscreen), WindowMode::Windowed);
    assert_eq!(toggle_mode(WindowMode::BorderlessFullscreen), WindowMode::Windowed);
    assert_eq!(toggle_mode(WindowMode::Windowed), WindowMode::BorderlessFullscreen);
}

#[test]
fn unpressed_key_changes_nothing() {
    let mut w = setup();
    assert_eq!(toggle_fullscreen(&mut w, false), ToggleOutcome::Idle);
    assert_eq!(w.window, Some(WindowMode::Windowed));
}

#[test]
fn missing_window_is_reported() {
    let mut w = setup();
    w.window = None;
    assert_eq!(toggle_fullscreen(&mut w, true), ToggleOutcome::NoWindow);
    assert_eq!(w.window, None);
}

#[test]
fn cube_turns_by_frame_time() {
    let mut w = setup();
    let deltas: [u64; 4] = [16_000_000, 17_000_000, 0, 1_500_000_000];
    for d in deltas {
        rotate_cube(&mut w, d);
    }
    assert_eq!(w.cube_yaw, 1_533_000_000);
}

#[test]
fn menu_key_even_and_odd() {
    let mut w = setup();
    toggle_menu(&mut w, true);
    assert!(w.menu_visible);
    assert_eq!(w.entities.len(), 10);
    assert_eq!(count(&w, Role::MenuRoot), 1);
    toggle_menu(&mut w, true);
    assert!(!w.menu_visible);
    assert_eq!(w.entities.len(), 3);
    assert_eq!(menu_count(&w), 0);
    toggle_menu(&mut w, true);
    toggle_menu(&mut w, true);
    toggle_menu(&mut w, true);
    assert!(w.menu_visible);
    assert_eq!(count(&w, Role::MenuRoot), 1);
    assert_eq!(menu_count(&w), 7);
    toggle_menu(&mut w, false);
    assert!(w.menu_visible);
    assert_eq!(w.entities.len(), 10);
}

#[test]
fn close_button_removes_menu() {
    let mut w = setup();
    toggle_menu(&mut w, true);
    assert_eq!(count(&w, Role::MenuRoot), 1);
    assert_eq!(count(&w, Role::ModeButton) + count(&w, Role::CloseButton), 2);
    handle_menu_interaction(&mut w, &vec![press(ButtonKind::Close, Interaction::Pressed)]);
    assert_eq!(menu_count(&w), 0);
    assert!(!w.menu_visible);
    assert_eq!(w.entities.len(), 3);
}

#[test]
fn mode_button_toggles_window() {
    let mut w = setup();
    toggle_menu(&mut w, true);
    handle_menu_interaction(&mut w, &vec![press(ButtonKind::WindowMode, Interaction::Pressed)]);
    assert_eq!(w.window, Some(WindowMode::BorderlessFullscreen));
    assert!(w.menu_visible);
    handle_menu_interaction(&mut w, &vec![press(ButtonKind::WindowMode, Interaction::Pressed)]);
    assert_eq!(w.window, Some(WindowMode::Windowed));
}

#[test]
fn hover_and_leave_set_colours() {
    let mut w = setup();
    toggle_menu(&mut w, true);
    assert_eq!(tint_of(&w, Role::ModeButton), Tint::ModeRest);
    assert_eq!(tint_of(&w, Role::CloseButton), Tint::CloseRest);
    handle_menu_interaction(
        &mut w,
        &vec![press(ButtonKind::WindowMode, Interaction::Hovered), press(ButtonKind::Close, Interaction::Hovered)],
    );
    assert_eq!(tint_of(&w, Role::ModeButton), Tint::Highlight);
    assert_eq!(tint_of(&w, Role::CloseButton), Tint::Highlight);
    handle_menu_interaction(
        &mut w,
        &vec![press(ButtonKind::WindowMode, Interaction::Idle), press(ButtonKind::Close, Interaction::Idle)],
    );
    assert_eq!(tint_of(&w, Role::ModeButton), Tint::ModeRest);
    assert_eq!(tint_of(&w, Role::CloseButton), Tint::CloseRest);
    assert_eq!(tint_of(&w, Role::MenuPanel), Tint::Fixed);
}

#[test]
fn despawn_without_menu_keeps_scene() {
    let mut w = setup();
    despawn_menus(&mut w);
    assert_eq!(w.entities.len(), 3);
}

#[test]
fn exit_signal_sent_once() {
    let mut w = setup();
    assert!(!handle_exit(&mut w, false));
    assert!(handle_exit(&mut w, true));
    assert!(w.exited);
    assert!(!handle_exit(&mut w, true));
}

#[test]
fn frames_after_exit_do_nothing() {
    let mut w = setup();
    let r = run_frame(&mut w, &frame(false, true, false, 10));
    assert!(r.exit_sent);
    assert_eq!(w.cube_yaw, 10);
    let r = run_frame(&mut w, &frame(true, true, true, 10));
    assert!(!r.exit_sent);
    assert_eq!(r.fullscreen, ToggleOutcome::Idle);
    assert_eq!(w.cube_yaw, 10);
    assert_eq!(w.window, Some(WindowMode::Windowed));
    assert!(!w.menu_visible);
}

#[test]
fn run_of_frames_sends_one_signal() {
    let mut w = setup();
    let inputs = vec![
        frame(true, false, false, 5),
        frame(false, true, true, 5),
        frame(false, true, false, 5),
        frame(true, false, true, 5),
    ];
    assert_eq!(run_frames(&mut w, &inputs), 1);
    assert!(w.exited);
    assert_eq!(w.cube_yaw, 10);
    assert_eq!(w.window, Some(WindowMode::BorderlessFullscreen));
    assert!(w.menu_visible);
    let mut v = setup();
    assert_eq!(run_frames(&mut v, &vec![frame(false, false, false, 1)]), 0);
    assert!(!v.exited);
}
