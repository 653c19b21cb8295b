use kloenk::components::{InStorage, ItemShape, Storable, Storage};
use kloenk::game_state::GameState;
use kloenk::names::{make_plane_name, make_sword_name};

fn name(text: &str) -> String {
    text.to_string()
}

#[test]
fn new_world_entities_in_load_order() {
    let game_state = GameState::new();
    assert_eq!(game_state.entities.len(), 473);
    assert_eq!(game_state.entities[0], "player");
    assert_eq!(game_state.entities[1], "shield");
    assert_eq!(game_state.entities[2], "sword1");
    assert_eq!(game_state.entities[71], "sword70");
    assert_eq!(game_state.entities[72], "plane-10-10");
    assert_eq!(game_state.entities[73], "plane-10-9");
    assert_eq!(game_state.entities[92], "plane-9-10");
    assert_eq!(game_state.entities[471], "plane99");
    assert_eq!(game_state.entities[472], "tree");
}

#[test]
fn new_world_components() {
    let game_state = GameState::new();
    let storage = game_state.get_storage(&name("player")).unwrap();
    assert_eq!(storage.number_of_rows, 8);
    assert_eq!(storage.number_of_columns, 8);
    assert!(game_state.get_storage(&name("shield")).is_none());
    assert_eq!(game_state.get_graphics(&name("player")).unwrap().model_id, "character");
    assert_eq!(game_state.get_graphics(&name("shield")).unwrap().model_id, "shield");
    assert_eq!(game_state.get_graphics(&name("sword5")).unwrap().model_id, "sword");
    assert_eq!(game_state.get_graphics(&name("plane0-3")).unwrap().model_id, "grass");
    assert_eq!(game_state.get_graphics(&name("tree")).unwrap().model_id, "tree");
    assert!(game_state.get_graphics(&name("sword71")).is_none());
    assert_eq!(
        game_state.get_graphics_inventory(&name("shield")).unwrap().model_id,
        "shield_inventory"
    );
    assert_eq!(
        game_state.get_graphics_inventory(&name("sword70")).unwrap().model_id,
        "sword_inventory"
    );
    assert!(game_state.get_graphics_inventory(&name("tree")).is_none());
    let shield = game_state.storable_components.get(&name("shield")).unwrap();
    assert_eq!((shield.shape.width, shield.shape.height), (1, 2));
    let sword = game_state.storable_components.get(&name("sword42")).unwrap();
    assert_eq!((sword.shape.width, sword.shape.height), (1, 1));
    assert!(game_state.storable_components.get(&name("player")).is_none());
    assert!(game_state.surface_components.contains_key(&name("plane-3-7")));
    assert!(!game_state.surface_components.contains_key(&name("tree")));
    assert_eq!(game_state.surface_components.len(), 400);
    assert_eq!(game_state.graphics_3d_components.len(), 473);
    assert_eq!(game_state.in_storage_components.len(), 0);
}

#[test]
fn in_storage_create_and_remove() {
    let mut game_state = GameState::new();
    game_state.create_in_storage(&name("player"), name("sword3"), (4, 5));
    let items = game_state.get_in_storages(&name("player"));
    assert_eq!(items.len(), 1);
    let placed = items.get(&name("sword3")).unwrap();
    assert_eq!(placed.storage_entity, "player");
    assert_eq!((placed.position_x, placed.position_y), (4, 5));
    assert_eq!(game_state.get_in_storages(&name("tree")).len(), 0);
    game_state.remove_in_storage(&name("sword3"));
    assert_eq!(game_state.get_in_storages(&name("player")).len(), 0);
}

#[test]
fn names_are_decimal() {
    assert_eq!(make_sword_name(7), "sword7");
    assert_eq!(make_sword_name(70), "sword70");
    assert_eq!(make_plane_name(-10, 5), "plane-105");
    assert_eq!(make_plane_name(0, -1), "plane0-1");
    assert_eq!(make_sword_name(0), "sword0");
    assert_eq!(make_sword_name(-2147483648), "sword-2147483648");
    assert_eq!(make_sword_name(2147483647), "sword2147483647");
    assert_eq!(make_plane_name(-128, 127), "plane-128127");
}

#[test]
fn in_storage_fields() {
    let in_storage = InStorage { storage_entity: name("bag"), position_x: 1, position_y: 2 };
    let storable = Storable { shape: ItemShape { width: 2, height: 3 } };
    let storage = Storage { number_of_rows: 4, number_of_columns: 4 };
    assert_eq!(in_storage.storage_entity, "bag");
    assert_eq!(storable.shape.width * storable.shape.height, 6);
    assert_eq!(storage.number_of_rows, 4);
}
