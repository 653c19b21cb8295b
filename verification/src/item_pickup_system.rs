use vstd::prelude::*;

use crate::command_handle_system::ActionEffect;
use crate::components::{Entity, InStorage};
use crate::frame_state::FrameState;
use crate::game_state::{is_stored_in, GameState};
use crate::input::{after_toggle_check, toggled_on, Input, KeyCode, MouseButton};
use crate::storage_manager::{
    cell_free, covers, entities_in_storage, entity_names, find_empty_spot_requires, is_occupied,
    items_in_grid, lemma_small_storage_search_safe, no_free_spot_before, offset_free,
    placement_in_grid, spot_is_free, stored_items, StorageManager, PADDED_STORAGE_SIZE,
};

verus! {

/// Picks items up from the world into the player's inventory.
pub struct ItemPickupSystem {}

/// What a press of the pick-up key asks for.
pub enum PickupRequest {
    /// The key did not go down, or another system handled it this frame.
    Ignored,
    /// The key went down but no item lies near.
    NothingNear,
    /// Pick up this item.
    Item(Entity),
}

/// Storing `item` in the storage of `owner` does not fail: the owner has a
/// storage, and finding room in it does not fail.
pub open spec fn store_item_requires(game_state: GameState, owner: Entity, item: Entity) -> bool {
    &&& game_state.wf()
    &&& game_state.storage_components@.dom().contains(owner@)
    &&& find_empty_spot_requires(
        game_state,
        game_state.storage_components@[owner@],
        entities_in_storage(game_state, owner@),
        item,
    )
}


/// The entity `e` takes cell (x, y) of the storage it lies in.
pub open spec fn entity_covers(game_state: GameState, e: Entity, x: int, y: int) -> bool {
    covers(
        game_state.in_storage_components@[e@],
        game_state.storable_components@[e@].shape,
        x,
        y,
    )
}

/// Among the entities of the world that lie in `owner`, no two take the
/// same cell, and each takes only cells of the storage space of `owner`.
pub open spec fn storage_consistent(game_state: GameState, owner: Seq<char>) -> bool {
    let entities = game_state.entities@;
    let columns = game_state.storage_components@[owner].number_of_columns;
    &&& forall|i: int, j: int, x: int, y: int|
        0 <= i < entities.len() && 0 <= j < entities.len() && entities[i]@ != entities[j]@
            && is_stored_in(game_state, entities[i], owner) && is_stored_in(
            game_state,
            entities[j],
            owner,
        ) && #[trigger] entity_covers(game_state, entities[i], x, y) ==> !#[trigger] entity_covers(
            game_state,
            entities[j],
            x,
            y,
        )
    &&& forall|i: int, x: int, y: int|
        0 <= i < entities.len() && is_stored_in(game_state, entities[i], owner)
            && #[trigger] entity_covers(game_state, entities[i], x, y) ==> 0 <= x < columns && 0
            <= y < columns
}

/// Storing an item where `store_item` puts it keeps the storage consistent:
/// the item overlaps no other item of the storage and stays inside it.
pub proof fn lemma_store_item_keeps_storage_consistent(
    before: GameState,
    after: GameState,
    owner: Entity,
    item: Entity,
    column: u8,
    row: u8,
)
    requires
        store_item_requires(before, owner, item),
        storage_consistent(before, owner@),
        spot_is_free(
            before.storage_components@[owner@],
            stored_items(before, entities_in_storage(before, owner@)),
            before.storable_components@[item@].shape,
            row as int,
            column as int,
        ),
        after.in_storage_components@ == before.in_storage_components@.insert(
            item@,
            InStorage { storage_entity: owner, position_x: column, position_y: row },
        ),
        after.entities == before.entities,
        after.storable_components == before.storable_components,
        after.storage_components == before.storage_components,
    ensures
        storage_consistent(after, owner@),
{
    let entities = before.entities@;
    let storage = before.storage_components@[owner@];
    let list = entities_in_storage(before, owner@);
    let items = stored_items(before, list);
    let shape = before.storable_components@[item@].shape;
    let pred = |e: Entity| is_stored_in(before, e, owner@);
    // A cell of the new placement is taken by no item stored before.
    assert forall|x: int, y: int| #[trigger] entity_covers(after, item, x, y) implies cell_free(
        storage,
        items,
        x,
        y,
    ) by {
        assert(offset_free(storage, items, row as int, column as int, x - column, y - row));
    }
    // An entity other than the item keeps its placement and whether it is stored.
    assert forall|j: int| 0 <= j < entities.len() && entities[j]@ != item@ implies (is_stored_in(
        after,
        entities[j],
        owner@,
    ) == is_stored_in(before, entities[j], owner@)) && (forall|x: int, y: int|
        #[trigger] entity_covers(after, entities[j], x, y) == entity_covers(before, entities[j], x, y)) by {}
    // An entity stored before, other than the item, is among the items the spot was checked against.
    assert forall|j: int, x: int, y: int|
        0 <= j < entities.len() && entities[j]@ != item@ && is_stored_in(before, entities[j], owner@)
            && #[trigger] entity_covers(before, entities[j], x, y) implies is_occupied(items, x, y) by {
        entities.lemma_filter_contains(pred, j);
        assert(list.contains(entities[j]));
        let k = choose|k: int| 0 <= k < list.len() && list[k] == entities[j];
        assert(items[k] == (before.in_storage_components@[entities[j]@], before.storable_components@[entities[j]@].shape));
        assert(covers(items[k].0, items[k].1, x, y));
    }
    assert forall|i: int, j: int, x: int, y: int|
        0 <= i < entities.len() && 0 <= j < entities.len() && entities[i]@ != entities[j]@
            && is_stored_in(after, entities[i], owner@) && is_stored_in(after, entities[j], owner@)
            && #[trigger] entity_covers(after, entities[i], x, y) implies !#[trigger] entity_covers(
        after,
        entities[j],
        x,
        y,
    ) by {
        if entities[i]@ == item@ {
            assert(entity_covers(after, item, x, y));
            assert(cell_free(storage, items, x, y));
            if entity_covers(before, entities[j], x, y) {
                assert(is_occupied(items, x, y));
            }
        } else if entities[j]@ == item@ {
            if entity_covers(after, entities[j], x, y) {
                assert(entity_covers(after, item, x, y));
                assert(cell_free(storage, items, x, y));
                assert(is_occupied(items, x, y));
            }
        } else {
            assert(entity_covers(before, entities[i], x, y));
        }
    }
    assert forall|i: int, x: int, y: int|
        0 <= i < entities.len() && is_stored_in(after, entities[i], owner@) && #[trigger] entity_covers(
            after,
            entities[i],
            x,
            y,
        ) implies 0 <= x < storage.number_of_columns && 0 <= y < storage.number_of_columns by {
        if entities[i]@ == item@ {
            assert(entity_covers(after, item, x, y));
            assert(cell_free(storage, items, x, y));
        } else {
            assert(entity_covers(before, entities[i], x, y));
        }
    }
}


/// A world with nothing in any storage is consistent.
pub proof fn lemma_empty_storage_consistent(game_state: GameState, owner: Seq<char>)
    requires
        game_state.in_storage_components@ == Map::<Seq<char>, InStorage>::empty(),
    ensures
        storage_consistent(game_state, owner),
{
}


/// Conditions, checked by `store_item_ready`, under which storing in the
/// storage of `owner` cannot fail: the component maps are well formed, the
/// owner has a storage of at most eleven columns and twelve rows with no
/// more columns than rows, the item is storable with a shape of at most 244
/// by 244 cells, and the items already in the storage are recorded and lie
/// in its grid.
pub open spec fn store_item_ready_spec(game_state: GameState, owner: Entity, item: Entity) -> bool {
    &&& game_state.wf()
    &&& game_state.storage_components@.dom().contains(owner@)
    &&& game_state.storable_components@.dom().contains(item@)
    &&& game_state.storage_components@[owner@].number_of_columns < PADDED_STORAGE_SIZE
    &&& game_state.storage_components@[owner@].number_of_rows <= PADDED_STORAGE_SIZE
    &&& game_state.storage_components@[owner@].number_of_columns
        <= game_state.storage_components@[owner@].number_of_rows
    &&& game_state.storable_components@[item@].shape.width <= 244
    &&& game_state.storable_components@[item@].shape.height <= 244
    &&& items_in_grid(
        game_state,
        game_state.storage_components@[owner@],
        entities_in_storage(game_state, owner@),
    )
}

/// The checked conditions are enough for `store_item`.
pub proof fn lemma_ready_store_item(game_state: GameState, owner: Entity, item: Entity)
    requires
        store_item_ready_spec(game_state, owner, item),
    ensures
        store_item_requires(game_state, owner, item),
{
    let storage = game_state.storage_components@[owner@];
    lemma_small_storage_search_safe(
        storage,
        stored_items(game_state, entities_in_storage(game_state, owner@)),
        game_state.storable_components@[item@].shape,
    );
}

/// Whether the conditions of `store_item_ready_spec` hold.
pub fn store_item_ready(game_state: &GameState, owner: &Entity, item: &Entity) -> (ready: bool)
    ensures
        ready == store_item_ready_spec(*game_state, *owner, *item),
        ready ==> store_item_requires(*game_state, *owner, *item),
{
    if !game_state.is_wf() {
        return false;
    }
    let storage = match game_state.get_storage(owner) {
        Some(storage) => *storage,
        None => return false,
    };
    let shape = match game_state.storable_components.get(item) {
        Some(storable) => storable.shape,
        None => return false,
    };
    if !(storage.number_of_columns < 12 && storage.number_of_rows <= 12
        && storage.number_of_columns <= storage.number_of_rows && shape.width <= 244
        && shape.height <= 244) {
        return false;
    }
    let listed = StorageManager::get_in_storage(game_state, owner);
    let ghost names = entity_names(listed@);
    let mut k: usize = 0;
    while k < listed.len()
        invariant
            game_state.wf(),
            names == entity_names(listed@),
            names == entities_in_storage(*game_state, owner@),
            game_state.storage_components@.dom().contains(owner@),
            storage == game_state.storage_components@[owner@],
            k <= listed@.len(),
            forall|i: int|
                #![trigger names[i]]
                0 <= i < k ==> {
                    &&& game_state.in_storage_components@.dom().contains(names[i]@)
                    &&& game_state.storable_components@.dom().contains(names[i]@)
                    &&& placement_in_grid(
                        storage,
                        game_state.in_storage_components@[names[i]@],
                        game_state.storable_components@[names[i]@].shape,
                    )
                },
        decreases listed@.len() - k,
    {
        let entity: &Entity = listed[k];
        assert(names[k as int] == *entity);
        let placement = match game_state.in_storage_components.get(entity) {
            Some(placement) => placement,
            None => return false,
        };
        let item_shape = match game_state.storable_components.get(entity) {
            Some(storable) => storable.shape,
            None => return false,
        };
        let x_end: u32 = placement.position_x as u32 + item_shape.width as u32;
        let y_end: u32 = placement.position_y as u32 + item_shape.height as u32;
        let in_grid = x_end <= 255 && (item_shape.width == 0 || (y_end <= 255 && (item_shape.height
            == 0 || (x_end <= storage.number_of_rows as u32 && y_end
            <= storage.number_of_columns as u32))));
        if !in_grid {
            return false;
        }
        k = k + 1;
    }
    proof {
        if store_item_ready_spec(*game_state, *owner, *item) {
            lemma_ready_store_item(*game_state, *owner, *item);
        }
    }
    true
}

/// What picking up `item` into the storage of `owner` does to the world
/// `before`, giving `after` and the `effect` the player is told: an item
/// that is not storable cannot be picked up; one that is not `in_range` is
/// not found; one for which the storage has no free spot does not fit; in
/// these cases nothing changes. Otherwise the item is stored at the first
/// free spot, searching row by row, and nothing else changes.
pub open spec fn pickup_outcome(
    before: GameState,
    after: GameState,
    owner: Entity,
    item: Entity,
    in_range: bool,
    effect: ActionEffect,
) -> bool {
    let storable = before.storable_components@.dom().contains(item@);
    let storage = before.storage_components@[owner@];
    let items = stored_items(before, entities_in_storage(before, owner@));
    let shape = before.storable_components@[item@].shape;
    if !storable {
        effect == ActionEffect::PickupItemNotStorable && after == before
    } else if !in_range {
        effect == ActionEffect::PickupNoItemInRange && after == before
    } else if no_free_spot_before(storage, items, shape, storage.number_of_rows as int, 0) {
        effect == ActionEffect::PickupNoInventorySpace && after == before
    } else {
        &&& effect == ActionEffect::PickupSucceeded
        &&& exists|column: u8, row: u8|
            {
                &&& row < storage.number_of_rows
                &&& column < storage.number_of_columns
                &&& spot_is_free(storage, items, shape, row as int, column as int)
                &&& no_free_spot_before(storage, items, shape, row as int, column as int)
                &&& #[trigger] after.in_storage_components@ == before.in_storage_components@.insert(
                    item@,
                    InStorage { storage_entity: owner, position_x: column, position_y: row },
                )
            }
        &&& after.wf()
        &&& after.entities == before.entities
        &&& after.graphics_3d_components == before.graphics_3d_components
        &&& after.graphics_2d_components == before.graphics_2d_components
        &&& after.surface_components == before.surface_components
        &&& after.storable_components == before.storable_components
        &&& after.storage_components == before.storage_components
    }
}

/// The player is told the item was picked up exactly when it is storable,
/// in range and fits: it then lies in the storage of `owner`, and any other
/// answer leaves the world as it was.
pub proof fn lemma_pickup_told_truthfully(
    before: GameState,
    after: GameState,
    owner: Entity,
    item: Entity,
    in_range: bool,
    effect: ActionEffect,
)
    requires
        pickup_outcome(before, after, owner, item, in_range, effect),
    ensures
        effect == ActionEffect::PickupSucceeded ==> {
            &&& before.storable_components@.dom().contains(item@)
            &&& in_range
            &&& after.in_storage_components@.dom().contains(item@)
            &&& after.in_storage_components@[item@].storage_entity == owner
        },
        effect != ActionEffect::PickupSucceeded ==> after == before,
        !in_range ==> effect != ActionEffect::PickupSucceeded,
{
}

impl ItemPickupSystem {
    /// The pick-up key: on a rising edge of E that no other system handled
    /// this frame, asks to pick up `near_pickup`, the nearest storable item,
    /// and marks the key as handled; with no item near it asks for nothing
    /// and leaves the key unhandled. The edge of E is consumed in any case.
    pub fn handle_item_pickup_keyboard(
        input: &mut Input,
        frame_state: &mut FrameState,
        near_pickup: Option<Entity>,
    ) -> (request: PickupRequest)
        ensures
            *final(input) == old(input).with_key_state(
                KeyCode::KeyE,
                after_toggle_check(old(input).e_pressed),
            ),
            final(frame_state).objects_on_cursor == old(frame_state).objects_on_cursor,
            final(frame_state).nearest_object == old(frame_state).nearest_object,
            final(frame_state).handled_left_click == old(frame_state).handled_left_click,
            final(frame_state).handled_right_click == old(frame_state).handled_right_click,
            final(frame_state).handled_enter_click == old(frame_state).handled_enter_click,
            ({
                let asked = toggled_on(old(input).e_pressed) && !old(frame_state).handled_e_click;
                match request {
                    PickupRequest::Ignored => !asked && final(frame_state).handled_e_click
                        == old(frame_state).handled_e_click,
                    PickupRequest::NothingNear => asked && near_pickup is None
                        && final(frame_state).handled_e_click == old(frame_state).handled_e_click,
                    PickupRequest::Item(item) => asked && near_pickup == Some(item)
                        && final(frame_state).handled_e_click,
                }
            }),
    {
        if input.e_pressed.is_toggled_on() && !frame_state.handled_e_click {
            match near_pickup {
                None => PickupRequest::NothingNear,
                Some(item) => {
                    frame_state.handled_e_click = true;
                    PickupRequest::Item(item)
                },
            }
        } else {
            PickupRequest::Ignored
        }
    }

    /// The left mouse button: on a rising edge that no other system handled
    /// this frame, answers the nearest object under the cursor, if any, to be
    /// picked up, and marks the click as handled. The edge is consumed in any
    /// case.
    pub fn handle_item_pickup_mouse(input: &mut Input, frame_state: &mut FrameState) -> (item: Option<Entity>)
        ensures
            *final(input) == old(input).with_button_state(
                MouseButton::Left,
                after_toggle_check(old(input).left_mouse_clicked),
            ),
            final(frame_state).objects_on_cursor == old(frame_state).objects_on_cursor,
            final(frame_state).nearest_object == old(frame_state).nearest_object,
            final(frame_state).handled_right_click == old(frame_state).handled_right_click,
            final(frame_state).handled_e_click == old(frame_state).handled_e_click,
            final(frame_state).handled_enter_click == old(frame_state).handled_enter_click,
            ({
                let clicked = toggled_on(old(input).left_mouse_clicked) && !old(frame_state).handled_left_click;
                &&& item == if clicked {
                    old(frame_state).nearest_object
                } else {
                    None
                }
                &&& final(frame_state).handled_left_click == (old(frame_state).handled_left_click || clicked)
            }),
    {
        if !input.left_mouse_clicked.is_toggled_on() {
            return None;
        }
        if frame_state.handled_left_click {
            return None;
        }
        let item = match frame_state.get_nearest_object_on_cursor() {
            Some(nearest_object) => Some(nearest_object.clone()),
            None => None,
        };
        frame_state.handled_left_click = true;
        item
    }

    /// The pick-up button of the object menu: when the menu is open, the
    /// mouse is over it, no other system handled the left click this frame
    /// and the left button went down, the menu's pick-up runs (the answer is
    /// true) and the click is marked as handled. The left edge is read, and
    /// consumed, only when the first three hold.
    pub fn handle_item_pickup_menu(
        menu_open: bool,
        menu_contained: bool,
        input: &mut Input,
        frame_state: &mut FrameState,
    ) -> (run: bool)
        ensures
            ({
                let reads = menu_open && menu_contained && !old(frame_state).handled_left_click;
                &&& run == (reads && toggled_on(old(input).left_mouse_clicked))
                &&& *final(input) == if reads {
                    old(input).with_button_state(
                        MouseButton::Left,
                        after_toggle_check(old(input).left_mouse_clicked),
                    )
                } else {
                    *old(input)
                }
                &&& final(frame_state).handled_left_click == (old(frame_state).handled_left_click || run)
            }),
            final(frame_state).objects_on_cursor == old(frame_state).objects_on_cursor,
            final(frame_state).nearest_object == old(frame_state).nearest_object,
            final(frame_state).handled_right_click == old(frame_state).handled_right_click,
            final(frame_state).handled_e_click == old(frame_state).handled_e_click,
            final(frame_state).handled_enter_click == old(frame_state).handled_enter_click,
    {
        if !menu_open {
            return false;
        }
        if !menu_contained {
            return false;
        }
        if frame_state.handled_left_click {
            return false;
        }
        if !input.left_mouse_clicked.is_toggled_on() {
            return false;
        }
        frame_state.handled_left_click = true;
        true
    }

    /// The storage part of picking up `item`: if the storage of `owner` has
    /// room for it, records it at the first free spot, (column, row), and
    /// answers that spot; otherwise changes nothing and answers `None`.
    pub fn store_item(game_state: &mut GameState, owner: &Entity, item: &Entity) -> (spot: Option<(u8, u8)>)
        requires
            store_item_requires(*old(game_state), *owner, *item),
        ensures
            ({
                let storage = old(game_state).storage_components@[owner@];
                let items = stored_items(*old(game_state), entities_in_storage(*old(game_state), owner@));
                let shape = old(game_state).storable_components@[item@].shape;
                match spot {
                    Some((column, row)) => {
                        &&& row < storage.number_of_rows
                        &&& column < storage.number_of_columns
                        &&& spot_is_free(storage, items, shape, row as int, column as int)
                        &&& no_free_spot_before(storage, items, shape, row as int, column as int)
                        &&& final(game_state).wf()
                        &&& final(game_state).in_storage_components@ == old(game_state).in_storage_components@.insert(
                            item@,
                            InStorage { storage_entity: *owner, position_x: column, position_y: row },
                        )
                        &&& final(game_state).entities == old(game_state).entities
                        &&& final(game_state).graphics_3d_components == old(game_state).graphics_3d_components
                        &&& final(game_state).graphics_2d_components == old(game_state).graphics_2d_components
                        &&& final(game_state).surface_components == old(game_state).surface_components
                        &&& final(game_state).storable_components == old(game_state).storable_components
                        &&& final(game_state).storage_components == old(game_state).storage_components
                    },
                    None => {
                        &&& no_free_spot_before(storage, items, shape, storage.number_of_rows as int, 0)
                        &&& *final(game_state) == *old(game_state)
                    },
                }
            }),
    {
        let inventory = *game_state.get_storage(owner).unwrap();
        let inventory_items = StorageManager::get_in_storage(game_state, owner);
        if !StorageManager::has_space(game_state, &inventory, &inventory_items, item) {
            return None;
        }
        let empty_spot = StorageManager::find_empty_spot(
            game_state,
            &inventory,
            &inventory_items,
            item,
        ).unwrap();
        game_state.create_in_storage(owner, item.clone(), empty_spot);
        Some(empty_spot)
    }

    /// Picks up `item` into the storage of `owner` (see `pickup_outcome`);
    /// the answer is what the player is told.
    pub fn item_pickup(game_state: &mut GameState, owner: &Entity, item: &Entity, in_range: bool) -> (effect: ActionEffect)
        requires
            old(game_state).wf(),
            old(game_state).storable_components@.dom().contains(item@) && in_range ==> store_item_requires(
                *old(game_state),
                *owner,
                *item,
            ),
        ensures
            pickup_outcome(*old(game_state), *final(game_state), *owner, *item, in_range, effect),
    {
        if !game_state.storable_components.contains_key(item) {
            return ActionEffect::PickupItemNotStorable;
        }
        if !in_range {
            return ActionEffect::PickupNoItemInRange;
        }
        match Self::store_item(game_state, owner, item) {
            None => ActionEffect::PickupNoInventorySpace,
            Some(spot) => {
                let ghost column = spot.0;
                let ghost row = spot.1;
                assert(game_state.in_storage_components@ == old(game_state).in_storage_components@.insert(
                    item@,
                    InStorage { storage_entity: *owner, position_x: column, position_y: row },
                ));
                ActionEffect::PickupSucceeded
            },
        }
    }
}

} // verus!
