use simple_renderer::input::{
    advance_keys, is_held, is_pressed, key_state, record_key, record_mouse_button, reload_requested, track_cursor,
    update_cursor_mode, update_window_size, Action, CursorMode, Data, KEY_F, KEY_F5, KEY_W,
};

#[test]
fn new_input_state_is_empty() {
    let d = Data::<f64>::new();
    assert!(d.keys.is_empty());
    assert_eq!(d.mouse.pos, (0.0, 0.0));
    assert_eq!(d.mouse_press, [false; 5]);
}

#[test]
fn keys_age_each_frame() {
    let mut keys = Vec::new();
    record_key(&mut keys, KEY_W, Action::Press);
    record_key(&mut keys, KEY_F, Action::Release);
    record_key(&mut keys, 1, Action::Repeat);
    assert_eq!(key_state(&keys, KEY_W), Some(Action::Press));
    assert!(is_pressed(&keys, KEY_W));
    advance_keys(&mut keys);
    assert_eq!(keys, vec![(KEY_W, Action::Repeat), (1, Action::Repeat)]);
    assert!(!is_pressed(&keys, KEY_W));
    assert!(is_held(&keys, KEY_W));
    assert_eq!(key_state(&keys, KEY_F), None);
}

#[test]
fn recording_a_key_replaces_its_action() {
    let mut keys = Vec::new();
    record_key(&mut keys, KEY_W, Action::Press);
    record_key(&mut keys, KEY_W, Action::Release);
    assert_eq!(keys.len(), 1);
    assert_eq!(key_state(&keys, KEY_W), Some(Action::Release));
    assert!(!is_held(&keys, KEY_W));
}

#[test]
fn mouse_buttons() {
    let mut d = Data::<f64>::new();
    record_mouse_button(&mut d, 1, Action::Press);
    assert_eq!(d.mouse_press, [false, true, false, false, false]);
    record_mouse_button(&mut d, 7, Action::Repeat);
    assert_eq!(d.mouse_press, [true, true, false, false, false]);
    record_mouse_button(&mut d, 1, Action::Release);
    assert_eq!(d.mouse_press, [true, false, false, false, false]);
}

#[test]
fn cursor_tracking() {
    let mut d = Data::<f64>::new();
    track_cursor(&mut d, CursorMode::Normal, (5.0, 5.0));
    assert_eq!(d.mouse.pos, (0.0, 0.0));
    track_cursor(&mut d, CursorMode::Disabled, (5.0, 6.0));
    track_cursor(&mut d, CursorMode::Hidden, (7.0, 8.0));
    assert_eq!(d.mouse.prev_pos, (5.0, 6.0));
    assert_eq!(d.mouse.pos, (7.0, 8.0));
}

#[test]
fn window_size_updates() {
    assert_eq!(update_window_size(640, 480, false, 800, 600), (800, 600, true));
    assert_eq!(update_window_size(800, 600, true, 800, 600), (800, 600, false));
    assert_eq!(update_window_size(800, 600, true, 0, 600), (800, 600, true));
}

#[test]
fn cursor_mode_toggles_on_f() {
    let mut d = Data::<f64>::new();
    assert_eq!(update_cursor_mode(&mut d, CursorMode::Normal, (3.0, 4.0), (0.0, 0.0)), None);
    record_key(&mut d.keys, KEY_F, Action::Press);
    assert_eq!(update_cursor_mode(&mut d, CursorMode::Normal, (3.0, 4.0), (0.0, 0.0)), Some(CursorMode::Disabled));
    assert_eq!((d.mouse.pos, d.mouse.prev_pos), ((3.0, 4.0), (3.0, 4.0)));
    assert_eq!(update_cursor_mode(&mut d, CursorMode::Disabled, (9.0, 9.0), (0.0, 0.0)), Some(CursorMode::Normal));
    assert_eq!((d.mouse.pos, d.mouse.prev_pos), ((0.0, 0.0), (0.0, 0.0)));
}

#[test]
fn reload_on_f5() {
    let mut d = Data::<f64>::new();
    assert!(!reload_requested(&d));
    record_key(&mut d.keys, KEY_F5, Action::Press);
    assert!(reload_requested(&d));
    advance_keys(&mut d.keys);
    assert!(!reload_requested(&d));
}
