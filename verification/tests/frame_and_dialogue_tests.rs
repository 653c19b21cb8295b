use kloenk::dialogue_manager::DialogueManager;
use kloenk::frame_state::FrameState;

#[test]
fn new_frame_state_is_empty() {
    let frame_state = FrameState::new();
    assert!(frame_state.get_objects_on_cursor().is_empty());
    assert!(frame_state.get_nearest_object_on_cursor().is_none());
    assert!(!frame_state.handled_left_click);
    assert!(!frame_state.handled_right_click);
    assert!(!frame_state.handled_e_click);
}

#[test]
fn objects_are_kept_in_order() {
    let mut frame_state = FrameState::new();
    frame_state.add_object("tree".to_string());
    frame_state.add_object("sword3".to_string());
    assert_eq!(
        frame_state.get_objects_on_cursor(),
        &vec!["tree".to_string(), "sword3".to_string()]
    );
}

#[test]
fn nearest_object_reads_back_what_was_set() {
    let mut frame_state = FrameState::new();
    frame_state.set_nearest_object_on_cursor(Some("shield".to_string()));
    assert_eq!(frame_state.get_nearest_object_on_cursor(), Some(&"shield".to_string()));
    frame_state.set_nearest_object_on_cursor(None);
    assert_eq!(frame_state.get_nearest_object_on_cursor(), None);
}

#[test]
fn intro_dialogue_is_known() {
    let manager = DialogueManager::new();
    let dialogue = manager.get_dialogue("dennis_intro").unwrap();
    assert_eq!(dialogue.text, "Welcome to the exciting world of Kloenk!");
}

#[test]
fn unknown_dialogue_is_none() {
    let manager = DialogueManager::new();
    assert!(manager.get_dialogue("dennis_outro").is_none());
    assert!(manager.get_dialogue("").is_none());
}
