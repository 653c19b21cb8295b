use vstd::prelude::*;

use crate::command_handle_system::ActionEffect;
use crate::components::{Entity, InStorage};
use crate::game_state::GameState;
use crate::input::{after_toggle_check, toggled_on, Input, MouseButton};
use crate::storage_manager::{entities_in_storage, StorageManager};

verus! {

/// Takes items out of the inventory and puts them down in the world.
pub struct ItemPlacementSystem {}

/// What placing an item tells the player, given whether the spot in front
/// of the player is on a placeable area and whether something stands there.
pub open spec fn placement_effect(placeable: bool, colliding: bool) -> ActionEffect {
    if !placeable {
        ActionEffect::PlaceItemNonPlaceable
    } else if colliding {
        ActionEffect::PlaceItemCollidingItem
    } else {
        ActionEffect::PlaceItemSucceeded
    }
}

/// What placing `item` does to the world `before`, giving `after`: when the
/// spot is placeable and nothing collides there, the item leaves its
/// storage; otherwise nothing changes. Nothing else changes either way.
pub open spec fn placement_outcome(
    before: GameState,
    after: GameState,
    item: Entity,
    placeable: bool,
    colliding: bool,
) -> bool {
    &&& after.wf()
    &&& after.in_storage_components@ == if placeable && !colliding {
        before.in_storage_components@.remove(item@)
    } else {
        before.in_storage_components@
    }
    &&& after.entities == before.entities
    &&& after.graphics_3d_components == before.graphics_3d_components
    &&& after.graphics_2d_components == before.graphics_2d_components
    &&& after.surface_components == before.surface_components
    &&& after.storable_components == before.storable_components
    &&& after.storage_components == before.storage_components
}

/// The player is told the item was put down exactly when the spot is
/// placeable and nothing collides there; a placement that is refused leaves
/// every storage record as it was, and one that succeeds takes the item out
/// of its storage and nothing else.
pub proof fn lemma_placement_told_truthfully(
    before: GameState,
    after: GameState,
    item: Entity,
    placeable: bool,
    colliding: bool,
)
    requires
        placement_outcome(before, after, item, placeable, colliding),
    ensures
        (placement_effect(placeable, colliding) == ActionEffect::PlaceItemSucceeded) == (placeable
            && !colliding),
        !placeable || colliding ==> after.in_storage_components@ == before.in_storage_components@,
        placeable && !colliding ==> !after.in_storage_components@.dom().contains(item@),
        placeable && !colliding ==> forall|k: Seq<char>|
            k != item@ ==> (#[trigger] after.in_storage_components@.dom().contains(k)
                == before.in_storage_components@.dom().contains(k)),
{
}

/// Dropping an item that was just picked up out of the world gives the
/// storages back as they were before the pickup.
pub proof fn lemma_drop_undoes_pickup(
    before: GameState,
    stored: GameState,
    dropped: GameState,
    owner: Entity,
    item: Entity,
    column: u8,
    row: u8,
)
    requires
        !before.in_storage_components@.dom().contains(item@),
        stored.in_storage_components@ == before.in_storage_components@.insert(
            item@,
            InStorage { storage_entity: owner, position_x: column, position_y: row },
        ),
        dropped.in_storage_components@ == stored.in_storage_components@.remove(item@),
    ensures
        dropped.in_storage_components@ == before.in_storage_components@,
{
    assert(dropped.in_storage_components@ =~= before.in_storage_components@);
}

impl ItemPlacementSystem {
    /// Places `item` in front of the player when that spot is on a placeable
    /// area and nothing collides with the item there: the item then leaves
    /// its storage. The outcome is added to the effects of the frame, and
    /// the answer is whether the item was placed.
    pub fn place_item(
        game_state: &mut GameState,
        action_effects: &mut Vec<ActionEffect>,
        item: &Entity,
        placeable: bool,
        colliding: bool,
    ) -> (placed: bool)
        requires
            old(game_state).wf(),
        ensures
            placed == (placeable && !colliding),
            final(action_effects)@ == old(action_effects)@.push(placement_effect(placeable, colliding)),
            placement_outcome(*old(game_state), *final(game_state), *item, placeable, colliding),
    {
        if !placeable {
            action_effects.push(ActionEffect::PlaceItemNonPlaceable);
            return false;
        }
        if colliding {
            action_effects.push(ActionEffect::PlaceItemCollidingItem);
            return false;
        }
        action_effects.push(ActionEffect::PlaceItemSucceeded);
        game_state.remove_in_storage(item);
        true
    }

    /// A left click puts down the first item, in the order of the entity
    /// list, that lies in the storage of `owner` (see `place_item`); with an
    /// empty storage the player is told there is nothing to place. The left
    /// edge is consumed in any case. The answer is the item placed.
    pub fn handle_item_placement(
        game_state: &mut GameState,
        input: &mut Input,
        action_effects: &mut Vec<ActionEffect>,
        owner: &Entity,
        placeable: bool,
        colliding: bool,
    ) -> (placed: Option<Entity>)
        requires
            old(game_state).wf(),
        ensures
            *final(input) == old(input).with_button_state(
                MouseButton::Left,
                after_toggle_check(old(input).left_mouse_clicked),
            ),
            final(game_state).wf(),
            final(game_state).entities == old(game_state).entities,
            final(game_state).graphics_3d_components == old(game_state).graphics_3d_components,
            final(game_state).graphics_2d_components == old(game_state).graphics_2d_components,
            final(game_state).surface_components == old(game_state).surface_components,
            final(game_state).storable_components == old(game_state).storable_components,
            final(game_state).storage_components == old(game_state).storage_components,
            ({
                let stored = entities_in_storage(*old(game_state), owner@);
                if !toggled_on(old(input).left_mouse_clicked) {
                    &&& placed is None
                    &&& final(action_effects)@ == old(action_effects)@
                    &&& final(game_state).in_storage_components == old(game_state).in_storage_components
                } else if stored.len() == 0 {
                    &&& placed is None
                    &&& final(action_effects)@ == old(action_effects)@.push(
                        ActionEffect::PlaceItemNoItemInInventory,
                    )
                    &&& final(game_state).in_storage_components == old(game_state).in_storage_components
                } else {
                    &&& final(action_effects)@ == old(action_effects)@.push(
                        placement_effect(placeable, colliding),
                    )
                    &&& if placeable && !colliding {
                        &&& placed == Some(stored[0])
                        &&& final(game_state).in_storage_components@ == old(
                            game_state,
                        ).in_storage_components@.remove(stored[0]@)
                    } else {
                        &&& placed is None
                        &&& final(game_state).in_storage_components@ == old(
                            game_state,
                        ).in_storage_components@
                    }
                }
            }),
    {
        if !input.left_mouse_clicked.is_toggled_on() {
            return None;
        }
        let item = match StorageManager::find_in_storage(game_state, owner) {
            None => {
                action_effects.push(ActionEffect::PlaceItemNoItemInInventory);
                return None;
            },
            Some(item) => item.clone(),
        };
        if Self::place_item(game_state, action_effects, &item, placeable, colliding) {
            Some(item)
        } else {
            None
        }
    }
}

} // verus!
