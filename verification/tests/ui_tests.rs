use kloenk::application::{AudioEvent, AudioState, State};
use kloenk::frame_state::FrameState;
use kloenk::game_system::GameSystem;
use kloenk::input::{ElementState, Input, KeyCode, MouseButton};
use kloenk::object_selection_system::ObjectSelectionSystem;
use kloenk::ui_state::UserAction;

#[test]
fn pointer_outside_is_idle_and_reads_no_click() {
    let mut input = Input::new();
    input.process_mouse_button(MouseButton::Left, ElementState::Pressed);
    assert_eq!(UserAction::from_pointer(false, &mut input), UserAction::Idle);
    assert!(!input.left_mouse_clicked.was_pressed);
    assert_eq!(UserAction::from_pointer(true, &mut input), UserAction::LeftClick);
    assert_eq!(UserAction::from_pointer(true, &mut input), UserAction::Hover);
}

#[test]
fn right_click_when_left_did_not_click() {
    let mut input = Input::new();
    input.process_mouse_button(MouseButton::Right, ElementState::Pressed);
    assert_eq!(UserAction::from_pointer(true, &mut input), UserAction::RightClick);
    assert!(input.left_mouse_clicked.was_pressed);
    assert_eq!(UserAction::from_pointer(true, &mut input), UserAction::Hover);
}

#[test]
fn left_click_wins_over_right_click() {
    let mut input = Input::new();
    input.process_mouse_button(MouseButton::Left, ElementState::Pressed);
    input.process_mouse_button(MouseButton::Right, ElementState::Pressed);
    assert_eq!(UserAction::from_pointer(true, &mut input), UserAction::LeftClick);
    assert!(!input.right_mouse_clicked.was_pressed);
    assert_eq!(UserAction::from_pointer(true, &mut input), UserAction::RightClick);
}

#[test]
fn menu_opens_on_unhandled_right_click_over_objects() {
    let mut input = Input::new();
    let mut frame_state = FrameState::new();
    let objects = vec!["tree".to_string()];
    input.process_mouse_button(MouseButton::Right, ElementState::Pressed);
    assert!(ObjectSelectionSystem::should_open_menu(&mut input, &frame_state, &objects));
    assert!(!ObjectSelectionSystem::should_open_menu(&mut input, &frame_state, &objects));
    input.process_mouse_button(MouseButton::Right, ElementState::Released);
    input.process_mouse_button(MouseButton::Right, ElementState::Pressed);
    frame_state.handled_right_click = true;
    assert!(!ObjectSelectionSystem::should_open_menu(&mut input, &frame_state, &objects));
    assert!(input.right_mouse_clicked.was_pressed);
}

#[test]
fn menu_stays_closed_without_objects() {
    let mut input = Input::new();
    let frame_state = FrameState::new();
    input.process_mouse_button(MouseButton::Right, ElementState::Pressed);
    assert!(!ObjectSelectionSystem::should_open_menu(&mut input, &frame_state, &Vec::new()));
}

#[test]
fn inventory_toggles_on_i() {
    let mut input = Input::new();
    let mut open = false;
    GameSystem::handle_inventory(&mut open, &mut input);
    assert!(!open);
    input.update(KeyCode::KeyI, ElementState::Pressed);
    GameSystem::handle_inventory(&mut open, &mut input);
    assert!(open);
    GameSystem::handle_inventory(&mut open, &mut input);
    assert!(open);
    input.update(KeyCode::KeyI, ElementState::Released);
    input.update(KeyCode::KeyI, ElementState::Pressed);
    GameSystem::handle_inventory(&mut open, &mut input);
    assert!(!open);
}

#[test]
fn audio_loads_on_first_gesture_only() {
    let mut state = AudioState::NotLoaded;
    assert!(state.handle(AudioEvent::UserGesture));
    assert_eq!(state, AudioState::Loading);
    assert!(!state.handle(AudioEvent::UserGesture));
    assert_eq!(state, AudioState::Loading);
    assert!(!state.handle(AudioEvent::PlayerBuilt));
    assert_eq!(state, AudioState::Loaded);
    assert!(!state.handle(AudioEvent::UserGesture));
    assert_eq!(state, AudioState::Loaded);
}

#[test]
fn engine_is_built_once() {
    let mut state: State<u32> = State::Uninitialized;
    assert!(state.begin_initialization());
    assert!(matches!(state, State::Initializing));
    assert!(!state.begin_initialization());
    state.finish_initialization(7);
    assert!(matches!(state, State::Initialized(7)));
    assert!(!state.begin_initialization());
    assert!(matches!(state, State::Initialized(7)));
}
