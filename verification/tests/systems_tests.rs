use kloenk::command_handle_system::{ActionEffect, CommandHandleSystem};
use kloenk::frame_state::FrameState;
use kloenk::input::{ElementState, Input, KeyCode, MouseButton};
use kloenk::item_pickup_system::{ItemPickupSystem, PickupRequest};
use kloenk::position_manager::PositionManager;

#[test]
fn first_minimum_prefers_the_earliest() {
    assert_eq!(PositionManager::first_minimum(&vec![]), None);
    assert_eq!(PositionManager::first_minimum(&vec![Some(3), Some(1), Some(1)]), Some(1));
    assert_eq!(PositionManager::first_minimum(&vec![Some(3), None, Some(0), None]), Some(1));
    assert_eq!(PositionManager::first_minimum(&vec![Some(5)]), Some(0));
    assert_eq!(PositionManager::first_minimum(&vec![Some(2), Some(2)]), Some(0));
}

#[test]
fn effects_set_the_texts_in_order() {
    let mut action_text = String::new();
    let mut selected_text = String::from("old selection");
    let effects = vec![
        ActionEffect::PickupNoItemInRange,
        ActionEffect::ItemSelected { found_objects_text: "tree, sword1".to_string() },
        ActionEffect::PlaceItemSucceeded,
    ];
    CommandHandleSystem::handle_action_effects(&mut action_text, &mut selected_text, &effects);
    assert_eq!(action_text, "You drop the item.");
    assert_eq!(selected_text, "tree, sword1");
}

#[test]
fn every_effect_has_its_text() {
    let cases = vec![
        (ActionEffect::PickupItemNotStorable, "That cannot be picked up."),
        (ActionEffect::PickupNoItemInRange, "No item found around you to pick up."),
        (ActionEffect::PlaceItemNonPlaceable, "Cannot place outside placeable area."),
        (
            ActionEffect::PlaceItemCollidingItem,
            "Found a colliding object.\nNot allowed to place there.",
        ),
        (
            ActionEffect::PickupNoInventorySpace,
            "There is no space left in your\ninventory to pick up this item.",
        ),
        (ActionEffect::PlaceItemSucceeded, "You drop the item."),
        (ActionEffect::PickupSucceeded, "You pick up the item!"),
        (ActionEffect::PlaceItemNoItemInInventory, "No items in inventory to place."),
        (ActionEffect::Examine { text: "A sharp sword.".to_string() }, "A sharp sword."),
    ];
    for (effect, expected) in cases {
        let mut action_text = String::new();
        let mut selected_text = String::new();
        CommandHandleSystem::handle_action_effects(&mut action_text, &mut selected_text, &vec![effect]);
        assert_eq!(action_text, expected);
        assert_eq!(selected_text, "");
    }
}

#[test]
fn no_effects_keep_the_texts() {
    let mut action_text = String::from("a");
    let mut selected_text = String::from("b");
    CommandHandleSystem::handle_action_effects(&mut action_text, &mut selected_text, &vec![]);
    assert_eq!((action_text.as_str(), selected_text.as_str()), ("a", "b"));
}

#[test]
fn pickup_key_asks_for_the_near_item_once() {
    let mut input = Input::new();
    let mut frame_state = FrameState::new();
    input.update(KeyCode::KeyE, ElementState::Pressed);
    let request = ItemPickupSystem::handle_item_pickup_keyboard(
        &mut input,
        &mut frame_state,
        Some("sword1".to_string()),
    );
    assert!(matches!(request, PickupRequest::Item(ref item) if item == "sword1"));
    assert!(frame_state.handled_e_click);
    let again = ItemPickupSystem::handle_item_pickup_keyboard(
        &mut input,
        &mut frame_state,
        Some("sword1".to_string()),
    );
    assert!(matches!(again, PickupRequest::Ignored));
}

#[test]
fn pickup_key_with_nothing_near() {
    let mut input = Input::new();
    let mut frame_state = FrameState::new();
    input.update(KeyCode::KeyE, ElementState::Pressed);
    let request = ItemPickupSystem::handle_item_pickup_keyboard(&mut input, &mut frame_state, None);
    assert!(matches!(request, PickupRequest::NothingNear));
    assert!(!frame_state.handled_e_click);
}

#[test]
fn pickup_key_already_handled() {
    let mut input = Input::new();
    let mut frame_state = FrameState::new();
    frame_state.handled_e_click = true;
    input.update(KeyCode::KeyE, ElementState::Pressed);
    let request = ItemPickupSystem::handle_item_pickup_keyboard(
        &mut input,
        &mut frame_state,
        Some("shield".to_string()),
    );
    assert!(matches!(request, PickupRequest::Ignored));
    assert!(input.e_pressed.was_pressed);
}

#[test]
fn click_picks_the_nearest_object_under_the_cursor() {
    let mut input = Input::new();
    let mut frame_state = FrameState::new();
    frame_state.set_nearest_object_on_cursor(Some("shield".to_string()));
    assert_eq!(ItemPickupSystem::handle_item_pickup_mouse(&mut input, &mut frame_state), None);
    assert!(!frame_state.handled_left_click);
    input.process_mouse_button(MouseButton::Left, ElementState::Pressed);
    assert_eq!(
        ItemPickupSystem::handle_item_pickup_mouse(&mut input, &mut frame_state),
        Some("shield".to_string())
    );
    assert!(frame_state.handled_left_click);
}

#[test]
fn click_without_object_is_still_handled() {
    let mut input = Input::new();
    let mut frame_state = FrameState::new();
    input.process_mouse_button(MouseButton::Left, ElementState::Pressed);
    assert_eq!(ItemPickupSystem::handle_item_pickup_mouse(&mut input, &mut frame_state), None);
    assert!(frame_state.handled_left_click);
}

#[test]
fn meshes_are_batched_in_runs() {
    let ids: Vec<String> = ["character", "shield", "sword", "sword", "grass", "sword"]
        .iter()
        .map(|s| s.to_string())
        .collect();
    let batches = kloenk::render_batching::group_by_mesh(&ids);
    let expected: Vec<(String, usize)> = vec![
        ("character".to_string(), 1),
        ("shield".to_string(), 1),
        ("sword".to_string(), 2),
        ("grass".to_string(), 1),
        ("sword".to_string(), 1),
    ];
    assert_eq!(batches, expected);
    assert!(kloenk::render_batching::group_by_mesh(&Vec::new()).is_empty());
}
