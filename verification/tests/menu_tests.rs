use kloenk::chat_system::ChatSystem;
use kloenk::command_handle_system::{ActionEffect, CommandHandleSystem};
use kloenk::frame_state::ActionRequest;
use kloenk::dialogue_system::{DialoguePartner, DialogueSystem};
use kloenk::frame_state::FrameState;
use kloenk::game_state::GameState;
use kloenk::input::{ElementState, Input, KeyCode, KeyPress, MouseButton};
use kloenk::inventory_system::InventorySystem;
use kloenk::item_pickup_system::ItemPickupSystem;
use kloenk::item_placement_system::ItemPlacementSystem;
use kloenk::object_selection_system::{ObjectSelectionSystem, WorldMenuView};
use kloenk::ui_state::{DialogueState, InputState, MenuAction, MenuState};

fn clicked(button: MouseButton) -> Input {
    let mut input = Input::new();
    input.process_mouse_button(button, ElementState::Pressed);
    input
}

fn pressed(key: KeyCode) -> Input {
    let mut input = Input::new();
    input.update(key, ElementState::Pressed);
    input
}

fn select(
    menu: &mut MenuState<(i32, i32)>,
    input: &mut Input,
    frame_state: &mut FrameState,
    pickup_contained: bool,
    examine_contained: bool,
) -> MenuAction {
    let mut game_state = GameState::new();
    let mut effects = Vec::new();
    let view = WorldMenuView { pickup_contained, examine_contained, item_in_range: true };
    ObjectSelectionSystem::handle_object_selection(
        &mut game_state,
        menu,
        input,
        frame_state,
        &mut effects,
        &"player".to_string(),
        (0, 0),
        view,
        view,
    )
}

fn item_menu(
    menu: &mut MenuState<(i32, i32)>,
    input: &mut Input,
    frame_state: &mut FrameState,
    drop_contained: bool,
    examine_contained: bool,
    has_description: bool,
) -> MenuAction {
    let mut game_state = game_with_stored_sword();
    let mut effects = Vec::new();
    InventorySystem::display_inventory_item_menu(
        &mut game_state,
        menu,
        input,
        frame_state,
        &mut effects,
        drop_contained,
        examine_contained,
        has_description,
        true,
        false,
    )
}

#[test]
fn world_menu_opens_for_first_object_under_cursor() {
    let mut input = clicked(MouseButton::Right);
    let mut frame_state = FrameState::new();
    frame_state.add_object("tree".to_string());
    frame_state.add_object("sword1".to_string());
    let mut menu: MenuState<(i32, i32)> = MenuState::Closed;
    ObjectSelectionSystem::open_menu(&mut menu, &mut input, &mut frame_state, (3, 4));
    assert!(matches!(&menu, MenuState::World { mouse_position: (3, 4), item } if item == "tree"));
    assert!(frame_state.handled_right_click);
}

#[test]
fn world_menu_stays_closed_on_handled_right_click() {
    let mut input = clicked(MouseButton::Right);
    let mut frame_state = FrameState::new();
    frame_state.add_object("tree".to_string());
    frame_state.handled_right_click = true;
    let mut menu: MenuState<(i32, i32)> = MenuState::Closed;
    ObjectSelectionSystem::open_menu(&mut menu, &mut input, &mut frame_state, (3, 4));
    assert!(matches!(menu, MenuState::Closed));
    assert!(input.right_mouse_clicked.was_pressed);
}

#[test]
fn world_menu_pick_up_closes_it() {
    let mut input = clicked(MouseButton::Left);
    let mut frame_state = FrameState::new();
    let mut menu = MenuState::World { mouse_position: (0, 0), item: "sword1".to_string() };
    let action =
        select(&mut menu, &mut input, &mut frame_state, true, false);
    assert_eq!(action, MenuAction::PickUp("sword1".to_string()));
    assert!(matches!(menu, MenuState::Closed));
    assert!(frame_state.handled_left_click);
}

#[test]
fn world_menu_examine_closes_it() {
    let mut input = clicked(MouseButton::Left);
    let mut frame_state = FrameState::new();
    let mut menu = MenuState::World { mouse_position: (0, 0), item: "tree".to_string() };
    let action =
        select(&mut menu, &mut input, &mut frame_state, false, true);
    assert_eq!(action, MenuAction::Examine("tree".to_string()));
    assert!(matches!(menu, MenuState::Closed));
}

#[test]
fn world_menu_ignores_handled_left_click() {
    let mut input = clicked(MouseButton::Left);
    let mut frame_state = FrameState::new();
    frame_state.handled_left_click = true;
    let mut menu = MenuState::World { mouse_position: (0, 0), item: "tree".to_string() };
    let action =
        select(&mut menu, &mut input, &mut frame_state, true, true);
    assert_eq!(action, MenuAction::Nothing);
    assert!(matches!(menu, MenuState::World { .. }));
}

#[test]
fn world_menu_hover_does_nothing() {
    let mut input = Input::new();
    let mut frame_state = FrameState::new();
    let mut menu = MenuState::World { mouse_position: (0, 0), item: "tree".to_string() };
    let action =
        select(&mut menu, &mut input, &mut frame_state, true, true);
    assert_eq!(action, MenuAction::Nothing);
    assert!(matches!(menu, MenuState::World { .. }));
    assert!(!frame_state.handled_left_click);
}

#[test]
fn inventory_menu_is_not_a_world_menu() {
    let mut input = clicked(MouseButton::Left);
    let mut frame_state = FrameState::new();
    let mut menu = MenuState::Inventory { mouse_position: (0, 0), item: "sword1".to_string() };
    let action =
        select(&mut menu, &mut input, &mut frame_state, true, true);
    assert_eq!(action, MenuAction::Nothing);
    assert!(!input.left_mouse_clicked.was_pressed);
}

#[test]
fn inventory_item_left_click_asks_for_placement() {
    let mut input = pressed(KeyCode::KeyI);
    input.process_mouse_button(MouseButton::Left, ElementState::Pressed);
    let mut open = false;
    let mut frame_state = FrameState::new();
    let mut menu: MenuState<(i32, i32)> = MenuState::Closed;
    let buttons = vec![("sword1".to_string(), false), ("sword2".to_string(), true)];
    let placement =
        InventorySystem::handle_inventory(&mut open, &mut menu, &mut input, &mut frame_state, &buttons, (1, 1));
    assert!(open);
    assert_eq!(placement, Some("sword2".to_string()));
    assert!(frame_state.handled_left_click);
    assert!(matches!(menu, MenuState::Closed));
}

#[test]
fn inventory_item_right_click_opens_its_menu() {
    let mut input = clicked(MouseButton::Right);
    let mut open = true;
    let mut frame_state = FrameState::new();
    let mut menu: MenuState<(i32, i32)> = MenuState::Closed;
    let buttons = vec![("sword1".to_string(), true), ("shield".to_string(), true)];
    let placement =
        InventorySystem::handle_inventory(&mut open, &mut menu, &mut input, &mut frame_state, &buttons, (5, 6));
    assert_eq!(placement, None);
    assert!(matches!(&menu, MenuState::Inventory { mouse_position: (5, 6), item } if item == "sword1"));
    assert!(frame_state.handled_right_click);
}

#[test]
fn closed_inventory_reads_no_buttons() {
    let mut input = clicked(MouseButton::Left);
    let mut open = false;
    let mut frame_state = FrameState::new();
    let mut menu: MenuState<(i32, i32)> = MenuState::Closed;
    let buttons = vec![("sword1".to_string(), true)];
    let placement =
        InventorySystem::handle_inventory(&mut open, &mut menu, &mut input, &mut frame_state, &buttons, (0, 0));
    assert_eq!(placement, None);
    assert!(!input.left_mouse_clicked.was_pressed);
}

#[test]
fn inventory_placement_needs_unhandled_click() {
    let mut input = clicked(MouseButton::Left);
    let mut open = true;
    let mut frame_state = FrameState::new();
    frame_state.handled_left_click = true;
    let mut menu: MenuState<(i32, i32)> = MenuState::Closed;
    let buttons = vec![("sword1".to_string(), true)];
    let placement =
        InventorySystem::handle_inventory(&mut open, &mut menu, &mut input, &mut frame_state, &buttons, (0, 0));
    assert_eq!(placement, None);
}

#[test]
fn inventory_item_menu_drop_and_examine() {
    let mut input = clicked(MouseButton::Left);
    let mut frame_state = FrameState::new();
    let mut menu = MenuState::Inventory { mouse_position: (0, 0), item: "sword1".to_string() };
    let action = item_menu(&mut menu, &mut input, &mut frame_state, true, false, true);
    assert_eq!(action, MenuAction::Drop("sword1".to_string()));
    assert!(matches!(menu, MenuState::Closed));

    let mut input = clicked(MouseButton::Left);
    let mut frame_state = FrameState::new();
    let mut menu = MenuState::Inventory { mouse_position: (0, 0), item: "sword1".to_string() };
    let action = item_menu(&mut menu, &mut input, &mut frame_state, false, true, true);
    assert_eq!(action, MenuAction::Examine("sword1".to_string()));
    assert!(matches!(menu, MenuState::Closed));
}

#[test]
fn inventory_item_menu_without_description_has_no_examine() {
    let mut input = clicked(MouseButton::Left);
    let mut frame_state = FrameState::new();
    let mut menu = MenuState::Inventory { mouse_position: (0, 0), item: "sword1".to_string() };
    let action = item_menu(&mut menu, &mut input, &mut frame_state, false, true, false);
    assert_eq!(action, MenuAction::Nothing);
    assert!(matches!(menu, MenuState::Inventory { .. }));
    assert!(!input.left_mouse_clicked.was_pressed);
}

fn partner(in_range: bool) -> Option<DialoguePartner> {
    Some(DialoguePartner {
        entity: "dennis".to_string(),
        dialogue_id: "dennis_intro".to_string(),
        in_range,
    })
}

#[test]
fn dialogue_opens_on_e_in_range() {
    let mut input = pressed(KeyCode::KeyE);
    let mut frame_state = FrameState::new();
    let mut dialogue: DialogueState<(i32, i32)> = DialogueState::Closed;
    DialogueSystem::handle_open_dialogue_keyboard(&mut dialogue, &mut input, &mut frame_state, partner(true), (2, 2));
    assert!(matches!(
        &dialogue,
        DialogueState::Npc { mouse_position: (2, 2), npc_entity_id, dialogue_id }
            if npc_entity_id == "dennis" && dialogue_id == "dennis_intro"
    ));
    assert!(frame_state.handled_e_click);
}

#[test]
fn dialogue_stays_closed_out_of_range() {
    let mut input = pressed(KeyCode::KeyE);
    let mut frame_state = FrameState::new();
    let mut dialogue: DialogueState<(i32, i32)> = DialogueState::Closed;
    DialogueSystem::handle_open_dialogue_keyboard(&mut dialogue, &mut input, &mut frame_state, partner(false), (2, 2));
    assert!(matches!(dialogue, DialogueState::Closed));
    assert!(!frame_state.handled_e_click);
    assert!(input.e_pressed.was_pressed);
}

fn open_dialogue() -> DialogueState<(i32, i32)> {
    DialogueState::Npc {
        mouse_position: (0, 0),
        npc_entity_id: "dennis".to_string(),
        dialogue_id: "dennis_intro".to_string(),
    }
}

#[test]
fn dialogue_shows_its_text() {
    let mut input = Input::new();
    let mut dialogue = open_dialogue();
    let text = DialogueSystem::display_dialogue(&mut dialogue, &mut input, true, false, true);
    assert_eq!(text, Some("Welcome to the exciting world of Kloenk!".to_string()));
    assert!(matches!(dialogue, DialogueState::Npc { .. }));
}

#[test]
fn dialogue_closes_on_close_button_or_distance() {
    let mut input = clicked(MouseButton::Left);
    let mut dialogue = open_dialogue();
    DialogueSystem::display_dialogue(&mut dialogue, &mut input, false, true, true);
    assert!(matches!(dialogue, DialogueState::Closed));

    let mut input = Input::new();
    let mut dialogue = open_dialogue();
    DialogueSystem::display_dialogue(&mut dialogue, &mut input, false, false, false);
    assert!(matches!(dialogue, DialogueState::Closed));

    let mut input = Input::new();
    let mut dialogue: DialogueState<(i32, i32)> = DialogueState::Closed;
    assert_eq!(DialogueSystem::display_dialogue(&mut dialogue, &mut input, true, true, false), None);
}

#[test]
fn click_on_dialogue_box_does_not_close_it() {
    let mut input = clicked(MouseButton::Left);
    let mut dialogue = open_dialogue();
    DialogueSystem::display_dialogue(&mut dialogue, &mut input, true, true, true);
    assert!(matches!(dialogue, DialogueState::Npc { .. }));
}

#[test]
fn enter_switches_chat_on_and_off() {
    let mut enter = KeyPress { is_pressed: false, was_pressed: false };
    enter.set_press_state(true);
    let mut input = Input::new();
    let mut state = InputState::Normal;
    let mut visible = false;
    let mut frame_state = FrameState::new();
    ChatSystem::handle_chat(&mut state, &mut visible, &mut enter, &mut input, &mut frame_state, false);
    assert_eq!(state, InputState::Chat);
    assert!(visible);
    assert!(frame_state.handled_enter_click);

    let mut frame_state = FrameState::new();
    ChatSystem::handle_chat(&mut state, &mut visible, &mut enter, &mut input, &mut frame_state, false);
    assert_eq!(state, InputState::Chat);
    assert!(!frame_state.handled_enter_click);

    enter.set_press_state(false);
    enter.set_press_state(true);
    ChatSystem::handle_chat(&mut state, &mut visible, &mut enter, &mut input, &mut frame_state, false);
    assert_eq!(state, InputState::Normal);
    assert!(!visible);
}

#[test]
fn enter_is_not_a_game_key() {
    let mut input = Input::new();
    input.update(KeyCode::Other, ElementState::Pressed);
    let mut enter = KeyPress { is_pressed: false, was_pressed: false };
    let mut state = InputState::Normal;
    let mut visible = false;
    let mut frame_state = FrameState::new();
    ChatSystem::handle_chat(&mut state, &mut visible, &mut enter, &mut input, &mut frame_state, false);
    assert_eq!(state, InputState::Normal);
}

#[test]
fn shown_chat_takes_clicks_over_it() {
    let mut enter = KeyPress { is_pressed: false, was_pressed: false };
    let mut input = clicked(MouseButton::Left);
    let mut state = InputState::Chat;
    let mut visible = true;
    let mut frame_state = FrameState::new();
    ChatSystem::handle_chat(&mut state, &mut visible, &mut enter, &mut input, &mut frame_state, true);
    assert!(input.left_mouse_clicked.was_pressed);

    let mut input = clicked(MouseButton::Left);
    let mut visible = false;
    ChatSystem::handle_chat(&mut state, &mut visible, &mut enter, &mut input, &mut frame_state, true);
    assert!(!input.left_mouse_clicked.was_pressed);
}

fn game_with_stored_sword() -> GameState {
    let mut game_state = GameState::new();
    let player = "player".to_string();
    let sword = "sword1".to_string();
    assert_eq!(ItemPickupSystem::store_item(&mut game_state, &player, &sword), Some((0, 0)));
    game_state
}

#[test]
fn placement_outcomes() {
    let sword = "sword1".to_string();

    let mut game_state = game_with_stored_sword();
    let mut effects = Vec::new();
    assert!(!ItemPlacementSystem::place_item(&mut game_state, &mut effects, &sword, false, false));
    assert!(matches!(effects.as_slice(), [ActionEffect::PlaceItemNonPlaceable]));
    assert!(game_state.in_storage_components.contains_key(&sword));

    assert!(!ItemPlacementSystem::place_item(&mut game_state, &mut effects, &sword, true, true));
    assert!(matches!(effects.as_slice(), [_, ActionEffect::PlaceItemCollidingItem]));
    assert!(game_state.in_storage_components.contains_key(&sword));

    assert!(ItemPlacementSystem::place_item(&mut game_state, &mut effects, &sword, true, false));
    assert!(matches!(effects.as_slice(), [_, _, ActionEffect::PlaceItemSucceeded]));
    assert!(!game_state.in_storage_components.contains_key(&sword));
}

#[test]
fn drop_after_pickup_restores_the_storages() {
    let sword = "sword1".to_string();
    let before = GameState::new();
    let mut game_state = game_with_stored_sword();
    let mut effects = Vec::new();
    assert!(ItemPlacementSystem::place_item(&mut game_state, &mut effects, &sword, true, false));
    assert_eq!(game_state.in_storage_components.len(), before.in_storage_components.len());
    assert!(!game_state.in_storage_components.contains_key(&sword));
}

#[test]
fn object_menu_pickup_runs_on_unhandled_click_over_it() {
    let mut input = clicked(MouseButton::Left);
    let mut frame_state = FrameState::new();
    assert!(!ItemPickupSystem::handle_item_pickup_menu(false, true, &mut input, &mut frame_state));
    assert!(!ItemPickupSystem::handle_item_pickup_menu(true, false, &mut input, &mut frame_state));
    assert!(!input.left_mouse_clicked.was_pressed);
    assert!(ItemPickupSystem::handle_item_pickup_menu(true, true, &mut input, &mut frame_state));
    assert!(frame_state.handled_left_click);

    let mut input = clicked(MouseButton::Left);
    assert!(!ItemPickupSystem::handle_item_pickup_menu(true, true, &mut input, &mut frame_state));
    assert!(!input.left_mouse_clicked.was_pressed);
}

#[test]
fn pickup_failures_come_in_order() {
    let player = "player".to_string();
    let mut game_state = GameState::new();
    let tree = "tree".to_string();
    assert!(matches!(
        ItemPickupSystem::item_pickup(&mut game_state, &player, &tree, false),
        ActionEffect::PickupItemNotStorable
    ));
    let sword = "sword1".to_string();
    assert!(matches!(
        ItemPickupSystem::item_pickup(&mut game_state, &player, &sword, false),
        ActionEffect::PickupNoItemInRange
    ));
    assert!(!game_state.in_storage_components.contains_key(&sword));
    assert!(matches!(
        ItemPickupSystem::item_pickup(&mut game_state, &player, &sword, true),
        ActionEffect::PickupSucceeded
    ));
    assert!(game_state.in_storage_components.contains_key(&sword));
}

#[test]
fn pickup_into_a_full_inventory_fails() {
    let player = "player".to_string();
    let mut game_state = GameState::new();
    for i in 1..=64 {
        let sword = format!("sword{i}");
        assert!(matches!(
            ItemPickupSystem::item_pickup(&mut game_state, &player, &sword, true),
            ActionEffect::PickupSucceeded
        ));
    }
    let sword = "sword65".to_string();
    assert!(matches!(
        ItemPickupSystem::item_pickup(&mut game_state, &player, &sword, true),
        ActionEffect::PickupNoInventorySpace
    ));
    assert_eq!(game_state.in_storage_components.len(), 64);
}

#[test]
fn placement_on_click_takes_the_first_stored_item() {
    let player = "player".to_string();
    let mut game_state = GameState::new();
    let mut effects = Vec::new();
    let mut input = Input::new();
    assert_eq!(
        ItemPlacementSystem::handle_item_placement(&mut game_state, &mut input, &mut effects, &player, true, false),
        None
    );
    assert!(effects.is_empty());

    let mut input = clicked(MouseButton::Left);
    assert_eq!(
        ItemPlacementSystem::handle_item_placement(&mut game_state, &mut input, &mut effects, &player, true, false),
        None
    );
    assert!(matches!(effects.as_slice(), [ActionEffect::PlaceItemNoItemInInventory]));

    for name in ["sword2", "shield"] {
        let item = name.to_string();
        ItemPickupSystem::item_pickup(&mut game_state, &player, &item, true);
    }
    let mut input = clicked(MouseButton::Left);
    assert_eq!(
        ItemPlacementSystem::handle_item_placement(&mut game_state, &mut input, &mut effects, &player, true, false),
        Some("shield".to_string())
    );
    assert!(matches!(effects.as_slice(), [_, ActionEffect::PlaceItemSucceeded]));
    assert!(game_state.in_storage_components.contains_key(&"sword2".to_string()));
}

#[test]
fn new_world_counts() {
    let game_state = GameState::new();
    assert_eq!(game_state.surface_components.len(), 400);
    assert_eq!(game_state.storable_components.len(), 71);
    let mut names = game_state.entities.clone();
    names.sort();
    names.dedup();
    assert_eq!(names.len(), 473);
}

#[test]
fn object_selection_opens_the_menu_then_reads_it() {
    let mut game_state = GameState::new();
    let mut effects = Vec::new();
    let mut input = clicked(MouseButton::Right);
    let mut frame_state = FrameState::new();
    frame_state.add_object("sword1".to_string());
    let mut menu: MenuState<(i32, i32)> = MenuState::Closed;
    let at_mouse = WorldMenuView { pickup_contained: true, examine_contained: false, item_in_range: true };
    let elsewhere = WorldMenuView { pickup_contained: false, examine_contained: false, item_in_range: false };
    let action = ObjectSelectionSystem::handle_object_selection(
        &mut game_state,
        &mut menu,
        &mut input,
        &mut frame_state,
        &mut effects,
        &"player".to_string(),
        (7, 8),
        at_mouse,
        elsewhere,
    );
    assert_eq!(action, MenuAction::Nothing);
    assert!(matches!(&menu, MenuState::World { mouse_position: (7, 8), item } if item == "sword1"));
    assert!(frame_state.handled_right_click);
    assert!(effects.is_empty());

    // The next frame, a left click on "Pick up item" picks the sword up.
    let mut input = clicked(MouseButton::Left);
    let mut frame_state = FrameState::new();
    frame_state.add_object("sword1".to_string());
    let action = ObjectSelectionSystem::handle_object_selection(
        &mut game_state,
        &mut menu,
        &mut input,
        &mut frame_state,
        &mut effects,
        &"player".to_string(),
        (9, 9),
        elsewhere,
        at_mouse,
    );
    assert_eq!(action, MenuAction::PickUp("sword1".to_string()));
    assert!(matches!(menu, MenuState::Closed));
    assert!(matches!(effects.as_slice(), [ActionEffect::PickupSucceeded]));
    assert!(game_state.in_storage_components.contains_key(&"sword1".to_string()));
}

#[test]
fn world_menu_pickup_out_of_range_tells_so() {
    let mut game_state = GameState::new();
    let mut effects = Vec::new();
    let mut input = clicked(MouseButton::Left);
    let mut frame_state = FrameState::new();
    let mut menu = MenuState::World { mouse_position: (0, 0), item: "sword1".to_string() };
    let view = WorldMenuView { pickup_contained: true, examine_contained: false, item_in_range: false };
    let action = ObjectSelectionSystem::handle_object_selection(
        &mut game_state,
        &mut menu,
        &mut input,
        &mut frame_state,
        &mut effects,
        &"player".to_string(),
        (0, 0),
        view,
        view,
    );
    assert_eq!(action, MenuAction::PickUp("sword1".to_string()));
    assert!(matches!(effects.as_slice(), [ActionEffect::PickupNoItemInRange]));
    assert!(!game_state.in_storage_components.contains_key(&"sword1".to_string()));
}

#[test]
fn inventory_drop_places_the_item() {
    let mut game_state = game_with_stored_sword();
    let mut effects = Vec::new();
    let mut input = clicked(MouseButton::Left);
    let mut frame_state = FrameState::new();
    let mut menu = MenuState::Inventory { mouse_position: (0, 0), item: "sword1".to_string() };
    let action = InventorySystem::display_inventory_item_menu(
        &mut game_state,
        &mut menu,
        &mut input,
        &mut frame_state,
        &mut effects,
        true,
        false,
        false,
        true,
        false,
    );
    assert_eq!(action, MenuAction::Drop("sword1".to_string()));
    assert!(matches!(effects.as_slice(), [ActionEffect::PlaceItemSucceeded]));
    assert!(!game_state.in_storage_components.contains_key(&"sword1".to_string()));

    let mut game_state = game_with_stored_sword();
    let mut effects = Vec::new();
    let mut input = clicked(MouseButton::Left);
    let mut frame_state = FrameState::new();
    let mut menu = MenuState::Inventory { mouse_position: (0, 0), item: "sword1".to_string() };
    InventorySystem::display_inventory_item_menu(
        &mut game_state,
        &mut menu,
        &mut input,
        &mut frame_state,
        &mut effects,
        true,
        false,
        false,
        false,
        false,
    );
    assert!(matches!(effects.as_slice(), [ActionEffect::PlaceItemNonPlaceable]));
    assert!(game_state.in_storage_components.contains_key(&"sword1".to_string()));
}

#[test]
fn placement_requests_are_applied_in_order() {
    let player = "player".to_string();
    let mut game_state = GameState::new();
    for name in ["sword1", "sword2"] {
        ItemPickupSystem::item_pickup(&mut game_state, &player, &name.to_string(), true);
    }
    let requests = vec![
        ActionRequest::ItemPlacement { entity: "sword1".to_string() },
        ActionRequest::ItemPlacement { entity: "sword2".to_string() },
    ];
    let mut effects = Vec::new();
    CommandHandleSystem::handle_action_requests(&mut game_state, &mut effects, &requests, &vec![(true, false), (true, true)]);
    assert!(matches!(
        effects.as_slice(),
        [ActionEffect::PlaceItemSucceeded, ActionEffect::PlaceItemCollidingItem]
    ));
    assert!(!game_state.in_storage_components.contains_key(&"sword1".to_string()));
    assert!(game_state.in_storage_components.contains_key(&"sword2".to_string()));
}
