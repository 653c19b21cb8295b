use kloenk::input::{ElementState, Input, KeyCode, KeyPress, MouseButton};

#[test]
fn set_press_state_keeps_previous_state() {
    let mut key = KeyPress { is_pressed: false, was_pressed: false };
    key.set_press_state(true);
    assert!(key.is_pressed);
    assert!(!key.was_pressed);
    key.set_press_state(false);
    assert!(!key.is_pressed);
    assert!(key.was_pressed);
}

#[test]
fn toggle_is_reported_once_per_press() {
    let mut key = KeyPress { is_pressed: false, was_pressed: false };
    key.set_press_state(true);
    assert!(key.is_toggled_on());
    assert!(!key.is_toggled_on());
    assert!(key.is_pressed);
    assert!(key.was_pressed);
}

#[test]
fn release_then_press_toggles_again() {
    let mut key = KeyPress { is_pressed: true, was_pressed: true };
    assert!(!key.is_toggled_on());
    key.set_press_state(false);
    key.set_press_state(true);
    assert!(key.is_toggled_on());
}

#[test]
fn held_key_does_not_toggle() {
    let mut key = KeyPress { is_pressed: true, was_pressed: false };
    key.set_press_state(true);
    assert!(!key.is_toggled_on());
}

#[test]
fn update_sets_only_the_tracked_key() {
    let mut input = Input::new();
    input.update(KeyCode::KeyW, ElementState::Pressed);
    assert!(input.w_pressed.is_pressed);
    assert!(!input.w_pressed.was_pressed);
    assert!(!input.s_pressed.is_pressed);
    assert!(!input.e_pressed.is_pressed);
    input.update(KeyCode::KeyW, ElementState::Released);
    assert!(!input.w_pressed.is_pressed);
    assert!(input.w_pressed.was_pressed);
}

#[test]
fn update_of_each_key() {
    let keys = [
        KeyCode::KeyW,
        KeyCode::KeyS,
        KeyCode::KeyA,
        KeyCode::KeyD,
        KeyCode::KeyI,
        KeyCode::KeyE,
        KeyCode::ShiftLeft,
        KeyCode::ArrowUp,
        KeyCode::ArrowDown,
        KeyCode::ArrowLeft,
        KeyCode::ArrowRight,
    ];
    for key in keys {
        let mut input = Input::new();
        input.update(key, ElementState::Pressed);
        let state = match key {
            KeyCode::KeyW => &input.w_pressed,
            KeyCode::KeyS => &input.s_pressed,
            KeyCode::KeyA => &input.a_pressed,
            KeyCode::KeyD => &input.d_pressed,
            KeyCode::KeyI => &input.i_pressed,
            KeyCode::KeyE => &input.e_pressed,
            KeyCode::ShiftLeft => &input.left_shift_pressed,
            KeyCode::ArrowUp => &input.up_pressed,
            KeyCode::ArrowDown => &input.down_pressed,
            KeyCode::ArrowLeft => &input.left_pressed,
            KeyCode::ArrowRight => &input.right_pressed,
            KeyCode::Other => unreachable!(),
        };
        assert!(state.is_pressed);
    }
}

#[test]
fn untracked_key_changes_nothing() {
    let mut input = Input::new();
    input.update(KeyCode::Other, ElementState::Pressed);
    assert!(!input.w_pressed.is_pressed && !input.s_pressed.is_pressed);
    assert!(!input.a_pressed.is_pressed && !input.d_pressed.is_pressed);
    assert!(!input.i_pressed.is_pressed && !input.e_pressed.is_pressed);
    assert!(!input.left_shift_pressed.is_pressed);
    assert!(!input.up_pressed.is_pressed && !input.down_pressed.is_pressed);
    assert!(!input.left_pressed.is_pressed && !input.right_pressed.is_pressed);
}

#[test]
fn mouse_buttons_are_tracked() {
    let mut input = Input::new();
    input.process_mouse_button(MouseButton::Left, ElementState::Pressed);
    assert!(input.left_mouse_clicked.is_pressed);
    assert!(!input.right_mouse_clicked.is_pressed);
    input.process_mouse_button(MouseButton::Right, ElementState::Pressed);
    assert!(input.right_mouse_clicked.is_pressed);
    input.process_mouse_button(MouseButton::Other, ElementState::Released);
    assert!(input.left_mouse_clicked.is_pressed);
    assert!(input.right_mouse_clicked.is_pressed);
    input.process_mouse_button(MouseButton::Left, ElementState::Released);
    assert!(!input.left_mouse_clicked.is_pressed);
    assert!(input.left_mouse_clicked.was_pressed);
}
