use kloenk::component_map::ComponentMap;
use kloenk::components::{ItemShape, Storable, Storage};
use kloenk::game_state::GameState;
use kloenk::item_pickup_system::ItemPickupSystem;
use kloenk::storage_manager::StorageManager;

fn name(text: &str) -> String {
    text.to_string()
}

fn padded(taken: &[(usize, usize)]) -> Vec<Vec<bool>> {
    let mut grid = vec![vec![false; 12]; 12];
    for &(x, y) in taken {
        grid[y][x] = true;
    }
    grid
}

#[test]
fn check_empty_spot_reads_the_shape_cells() {
    let grid = padded(&[(2, 1)]);
    let tall = ItemShape { width: 1, height: 2 };
    assert!(!StorageManager::check_empty_spot(&grid, 0, 2, &tall));
    assert!(StorageManager::check_empty_spot(&grid, 0, 3, &tall));
    assert!(StorageManager::check_empty_spot(&grid, 2, 2, &tall));
    let wide = ItemShape { width: 3, height: 1 };
    assert!(!StorageManager::check_empty_spot(&grid, 1, 0, &wide));
    assert!(StorageManager::check_empty_spot(&grid, 1, 3, &wide));
}

#[test]
fn check_empty_spot_of_empty_shape_fits() {
    let grid = padded(&[(0, 0)]);
    let nothing = ItemShape { width: 0, height: 0 };
    assert!(StorageManager::check_empty_spot(&grid, 0, 0, &nothing));
}

#[test]
fn shapes_filling_a_small_grid_fit() {
    let grid = vec![vec![false; 2]; 2];
    let wide = ItemShape { width: 2, height: 1 };
    assert!(StorageManager::check_empty_spot(&grid, 0, 0, &wide));
    let tall = ItemShape { width: 1, height: 2 };
    assert!(StorageManager::check_empty_spot(&grid, 0, 1, &tall));
}

#[test]
fn first_spot_in_empty_inventory() {
    let game_state = GameState::new();
    let storage = *game_state.get_storage(&name("player")).unwrap();
    let items = StorageManager::get_in_storage(&game_state, &name("player"));
    assert!(items.is_empty());
    assert_eq!(
        StorageManager::find_empty_spot(&game_state, &storage, &items, &name("shield")),
        Some((0, 0))
    );
    assert!(StorageManager::has_space(&game_state, &storage, &items, &name("sword1")));
}

#[test]
fn pickups_fill_rows_from_the_left() {
    let mut game_state = GameState::new();
    let player = name("player");
    assert_eq!(ItemPickupSystem::store_item(&mut game_state, &player, &name("sword1")), Some((0, 0)));
    assert_eq!(ItemPickupSystem::store_item(&mut game_state, &player, &name("sword2")), Some((1, 0)));
    assert_eq!(ItemPickupSystem::store_item(&mut game_state, &player, &name("shield")), Some((2, 0)));
    assert_eq!(ItemPickupSystem::store_item(&mut game_state, &player, &name("sword3")), Some((3, 0)));
    let placed = game_state.in_storage_components.get(&name("shield")).unwrap();
    assert_eq!(placed.storage_entity, "player");
    assert_eq!((placed.position_x, placed.position_y), (2, 0));
}

#[test]
fn occupancy_grid_marks_stored_items() {
    let mut game_state = GameState::new();
    let player = name("player");
    ItemPickupSystem::store_item(&mut game_state, &player, &name("sword1"));
    ItemPickupSystem::store_item(&mut game_state, &player, &name("shield"));
    let storage = *game_state.get_storage(&player).unwrap();
    let items = StorageManager::get_in_storage(&game_state, &player);
    let grid = StorageManager::generate_dynamic_storage_space(&game_state, &storage, &items);
    assert_eq!(grid.len(), 8);
    assert!(grid.iter().all(|line| line.len() == 8));
    assert!(grid[0][0]);
    assert!(grid[0][1]);
    assert!(grid[1][1]);
    assert!(!grid[1][0]);
    assert!(!grid[2][1]);
    let taken = grid.iter().flatten().filter(|cell| **cell).count();
    assert_eq!(taken, 3);
}

#[test]
fn in_storage_lists_follow_entity_order() {
    let mut game_state = GameState::new();
    let player = name("player");
    ItemPickupSystem::store_item(&mut game_state, &player, &name("sword9"));
    ItemPickupSystem::store_item(&mut game_state, &player, &name("shield"));
    let items = StorageManager::get_in_storage(&game_state, &player);
    assert_eq!(items, vec![&name("shield"), &name("sword9")]);
    assert_eq!(StorageManager::get_in_storage_entities(&game_state, &player), items);
    assert_eq!(StorageManager::find_in_storage(&game_state, &player), Some(&name("shield")));
    game_state.remove_in_storage(&name("shield"));
    assert_eq!(StorageManager::find_in_storage(&game_state, &player), Some(&name("sword9")));
    game_state.remove_in_storage(&name("sword9"));
    assert_eq!(StorageManager::find_in_storage(&game_state, &player), None);
}

#[test]
fn full_inventory_has_no_space() {
    let mut game_state = GameState::new();
    let player = name("player");
    for i in 1..=64u32 {
        let sword = format!("sword{i}");
        let column = ((i - 1) % 8) as u8;
        let row = ((i - 1) / 8) as u8;
        assert_eq!(
            ItemPickupSystem::store_item(&mut game_state, &player, &sword),
            Some((column, row))
        );
    }
    assert_eq!(ItemPickupSystem::store_item(&mut game_state, &player, &name("sword65")), None);
    assert!(game_state.in_storage_components.get(&name("sword65")).is_none());
    let storage = *game_state.get_storage(&player).unwrap();
    let items = StorageManager::get_in_storage(&game_state, &player);
    assert_eq!(items.len(), 64);
    assert!(!StorageManager::has_space(&game_state, &storage, &items, &name("sword65")));
    assert_eq!(
        StorageManager::find_empty_spot(&game_state, &storage, &items, &name("shield")),
        None
    );
}

#[test]
fn tall_item_skips_spots_at_the_bottom_edge() {
    let mut game_state = GameState::new();
    let player = name("player");
    for i in 1..=56u32 {
        let sword = format!("sword{i}");
        assert!(ItemPickupSystem::store_item(&mut game_state, &player, &sword).is_some());
    }
    // Only the last row is free: a one by two shield does not fit there.
    assert_eq!(ItemPickupSystem::store_item(&mut game_state, &player, &name("shield")), None);
    assert_eq!(
        ItemPickupSystem::store_item(&mut game_state, &player, &name("sword57")),
        Some((0, 7))
    );
}

#[test]
fn wide_item_in_small_storage() {
    let mut storables: ComponentMap<Storable> = ComponentMap::new();
    storables.insert(name("plank"), Storable { shape: ItemShape { width: 2, height: 1 } });
    storables.insert(name("pebble"), Storable { shape: ItemShape { width: 1, height: 1 } });
    let mut storages: ComponentMap<Storage> = ComponentMap::new();
    storages.insert(name("bag"), Storage { number_of_rows: 2, number_of_columns: 2 });
    let mut game_state = GameState {
        entities: vec![name("bag"), name("pebble"), name("plank")],
        graphics_3d_components: ComponentMap::new(),
        graphics_2d_components: ComponentMap::new(),
        surface_components: ComponentMap::new(),
        storable_components: storables,
        storage_components: storages,
        in_storage_components: ComponentMap::new(),
    };
    let bag = name("bag");
    assert_eq!(ItemPickupSystem::store_item(&mut game_state, &bag, &name("pebble")), Some((0, 0)));
    // The plank needs two cells side by side: row 0 has one left, row 1 has two.
    assert_eq!(ItemPickupSystem::store_item(&mut game_state, &bag, &name("plank")), Some((0, 1)));
}
