use vstd::prelude::*;

#[allow(unused_imports)]
use vstd::string::StringExecFns;

use crate::components::{Entity, InStorage};
use crate::frame_state::ActionRequest;
use crate::game_state::GameState;
use crate::item_placement_system::{placement_effect, ItemPlacementSystem};

verus! {

/// What an action of the player brought about, to be told to the player.
pub enum ActionEffect {
    PickupItemNotStorable,
    PickupNoItemInRange,
    PlaceItemNonPlaceable,
    PlaceItemCollidingItem,
    PickupNoInventorySpace,
    PlaceItemSucceeded,
    PickupSucceeded,
    PlaceItemNoItemInInventory,
    ItemSelected { found_objects_text: String },
    Examine { text: String },
}

/// Turns the effects of the frame into the texts shown to the player.
pub struct CommandHandleSystem {}

/// The action text and the selection text after `effect` is told.
pub open spec fn apply_effect(texts: (Seq<char>, Seq<char>), effect: ActionEffect) -> (Seq<char>, Seq<char>) {
    match effect {
        ActionEffect::PickupItemNotStorable => ("That cannot be picked up."@, texts.1),
        ActionEffect::PickupNoItemInRange => ("No item found around you to pick up."@, texts.1),
        ActionEffect::PlaceItemNonPlaceable => ("Cannot place outside placeable area."@, texts.1),
        ActionEffect::PlaceItemCollidingItem => (
            "Found a colliding object.\nNot allowed to place there."@,
            texts.1,
        ),
        ActionEffect::PickupNoInventorySpace => (
            "There is no space left in your\ninventory to pick up this item."@,
            texts.1,
        ),
        ActionEffect::PlaceItemSucceeded => ("You drop the item."@, texts.1),
        ActionEffect::PickupSucceeded => ("You pick up the item!"@, texts.1),
        ActionEffect::PlaceItemNoItemInInventory => ("No items in inventory to place."@, texts.1),
        ActionEffect::ItemSelected { found_objects_text } => (texts.0, found_objects_text@),
        ActionEffect::Examine { text } => (text@, texts.1),
    }
}

/// The texts after the effects are told one after the other.
pub open spec fn apply_effects(texts: (Seq<char>, Seq<char>), effects: Seq<ActionEffect>) -> (Seq<char>, Seq<char>)
    decreases effects.len(),
{
    if effects.len() == 0 {
        texts
    } else {
        apply_effect(apply_effects(texts, effects.drop_last()), effects.last())
    }
}

impl CommandHandleSystem {
    /// Tells the effects, in order: each sets the action text or the
    /// selection text, so the last effect of each kind is what shows.
    pub fn handle_action_effects(
        action_text: &mut String,
        selected_text: &mut String,
        action_effects: &Vec<ActionEffect>,
    )
        ensures
            (final(action_text)@, final(selected_text)@) == apply_effects(
                (old(action_text)@, old(selected_text)@),
                action_effects@,
            ),
    {
        let ghost start = (action_text@, selected_text@);
        let mut i: usize = 0;
        while i < action_effects.len()
            invariant
                i <= action_effects@.len(),
                start == (old(action_text)@, old(selected_text)@),
                (action_text@, selected_text@) == apply_effects(start, action_effects@.take(i as int)),
            decreases action_effects@.len() - i,
        {
            proof {
                assert(action_effects@.take(i + 1).drop_last() =~= action_effects@.take(i as int));
            }
            match &action_effects[i] {
                ActionEffect::PickupItemNotStorable => {
                    *action_text = String::from_str("That cannot be picked up.");
                },
                ActionEffect::PickupNoItemInRange => {
                    *action_text = String::from_str("No item found around you to pick up.");
                },
                ActionEffect::PlaceItemNonPlaceable => {
                    *action_text = String::from_str("Cannot place outside placeable area.");
                },
                ActionEffect::PlaceItemCollidingItem => {
                    *action_text = String::from_str(
                        "Found a colliding object.\nNot allowed to place there.",
                    );
                },
                ActionEffect::PickupNoInventorySpace => {
                    *action_text = String::from_str(
                        "There is no space left in your\ninventory to pick up this item.",
                    );
                },
                ActionEffect::PlaceItemSucceeded => {
                    *action_text = String::from_str("You drop the item.");
                },
                ActionEffect::PickupSucceeded => {
                    *action_text = String::from_str("You pick up the item!");
                },
                ActionEffect::PlaceItemNoItemInInventory => {
                    *action_text = String::from_str("No items in inventory to place.");
                },
                ActionEffect::ItemSelected { found_objects_text } => {
                    *selected_text = found_objects_text.clone();
                },
                ActionEffect::Examine { text } => {
                    *action_text = text.clone();
                },
            }
            i = i + 1;
        }
        proof {
            assert(action_effects@.take(action_effects@.len() as int) =~= action_effects@);
        }
    }
}

/// The storage records after the placement requests are applied in order,
/// the `i`-th with the spot check `checks[i]`, (placeable, colliding): an
/// item whose spot is placeable and free leaves its storage.
pub open spec fn in_storage_after_requests(
    in_storage: Map<Seq<char>, InStorage>,
    requests: Seq<ActionRequest>,
    checks: Seq<(bool, bool)>,
) -> Map<Seq<char>, InStorage>
    decreases requests.len(),
{
    if requests.len() == 0 {
        in_storage
    } else {
        let before = in_storage_after_requests(in_storage, requests.drop_last(), checks);
        let check = checks[requests.len() - 1];
        match requests.last() {
            ActionRequest::ItemPlacement { entity } => if check.0 && !check.1 {
                before.remove(entity@)
            } else {
                before
            },
        }
    }
}

impl CommandHandleSystem {
    /// Applies the requests of the frame in order: each placement request
    /// places its item (see `place_item`) with the spot check `checks[i]`,
    /// (placeable, colliding), that the `i`-th request finds, and adds what
    /// the player is told to `action_effects`.
    pub fn handle_action_requests(
        game_state: &mut GameState,
        action_effects: &mut Vec<ActionEffect>,
        requests: &Vec<ActionRequest>,
        checks: &Vec<(bool, bool)>,
    )
        requires
            old(game_state).wf(),
            checks@.len() == requests@.len(),
        ensures
            final(action_effects)@ == old(action_effects)@ + Seq::new(
                requests@.len(),
                |i: int| placement_effect(checks@[i].0, checks@[i].1),
            ),
            final(game_state).in_storage_components@ == in_storage_after_requests(
                old(game_state).in_storage_components@,
                requests@,
                checks@,
            ),
            final(game_state).wf(),
            final(game_state).entities == old(game_state).entities,
            final(game_state).graphics_3d_components == old(game_state).graphics_3d_components,
            final(game_state).graphics_2d_components == old(game_state).graphics_2d_components,
            final(game_state).surface_components == old(game_state).surface_components,
            final(game_state).storable_components == old(game_state).storable_components,
            final(game_state).storage_components == old(game_state).storage_components,
    {
        let mut i: usize = 0;
        while i < requests.len()
            invariant
                i <= requests@.len(),
                checks@.len() == requests@.len(),
                action_effects@ == old(action_effects)@ + Seq::new(
                    i as nat,
                    |j: int| placement_effect(checks@[j].0, checks@[j].1),
                ),
                game_state.in_storage_components@ == in_storage_after_requests(
                    old(game_state).in_storage_components@,
                    requests@.take(i as int),
                    checks@,
                ),
                game_state.wf(),
                game_state.entities == old(game_state).entities,
                game_state.graphics_3d_components == old(game_state).graphics_3d_components,
                game_state.graphics_2d_components == old(game_state).graphics_2d_components,
                game_state.surface_components == old(game_state).surface_components,
                game_state.storable_components == old(game_state).storable_components,
                game_state.storage_components == old(game_state).storage_components,
            decreases requests@.len() - i,
        {
            proof {
                assert(requests@.take(i + 1).drop_last() =~= requests@.take(i as int));
            }
            let (placeable, colliding) = checks[i];
            match &requests[i] {
                ActionRequest::ItemPlacement { entity } => {
                    ItemPlacementSystem::place_item(game_state, action_effects, entity, placeable, colliding);
                },
            }
            proof {
                assert(action_effects@ =~= old(action_effects)@ + Seq::new(
                    (i + 1) as nat,
                    |j: int| placement_effect(checks@[j].0, checks@[j].1),
                ));
            }
            i = i + 1;
        }
        proof {
            assert(requests@.take(requests@.len() as int) =~= requests@);
        }
    }
}

/// Telling effects in two batches gives the texts of telling them in one.
pub proof fn lemma_effects_in_batches(
    texts: (Seq<char>, Seq<char>),
    first: Seq<ActionEffect>,
    second: Seq<ActionEffect>,
)
    ensures
        apply_effects(apply_effects(texts, first), second) == apply_effects(texts, first + second),
    decreases second.len(),
{
    if second.len() == 0 {
        assert(first + second =~= first);
    } else {
        lemma_effects_in_batches(texts, first, second.drop_last());
        assert((first + second).drop_last() =~= first + second.drop_last());
        assert((first + second).last() == second.last());
    }
}

/// The item that a request is about.
pub open spec fn request_entity(request: ActionRequest) -> Entity {
    match request {
        ActionRequest::ItemPlacement { entity } => entity,
    }
}

/// Placement requests take an item out of its storage exactly when one of
/// its requests found a placeable spot with nothing colliding there; every
/// other storage record stays as it was, and no record is added.
pub proof fn lemma_requests_remove_only_placed_items(
    in_storage: Map<Seq<char>, InStorage>,
    requests: Seq<ActionRequest>,
    checks: Seq<(bool, bool)>,
    k: Seq<char>,
)
    requires
        requests.len() <= checks.len(),
    ensures
        ({
            let after = in_storage_after_requests(in_storage, requests, checks);
            &&& after.dom().contains(k) ==> in_storage.dom().contains(k) && after[k] == in_storage[k]
            &&& in_storage.dom().contains(k) ==> (after.dom().contains(k) <==> !exists|i: int|
                0 <= i < requests.len() && #[trigger] request_entity(requests[i])@ == k && checks[i].0
                    && !checks[i].1)
        }),
    decreases requests.len(),
{
    if requests.len() > 0 {
        let rest = requests.drop_last();
        lemma_requests_remove_only_placed_items(in_storage, rest, checks, k);
        let n = requests.len() - 1;
        assert(requests.last() == requests[n]);
        if in_storage.dom().contains(k) {
            let placed_in = |r: Seq<ActionRequest>|
                exists|i: int|
                    0 <= i < r.len() && #[trigger] request_entity(r[i])@ == k && checks[i].0 && !checks[i].1;
            if placed_in(rest) {
                let i = choose|i: int|
                    0 <= i < rest.len() && #[trigger] request_entity(rest[i])@ == k && checks[i].0
                        && !checks[i].1;
                assert(requests[i] == rest[i]);
                assert(request_entity(requests[i])@ == k);
            }
            if placed_in(requests) {
                let i = choose|i: int|
                    0 <= i < requests.len() && #[trigger] request_entity(requests[i])@ == k && checks[i].0
                        && !checks[i].1;
                if i < n {
                    assert(rest[i] == requests[i]);
                    assert(request_entity(rest[i])@ == k);
                }
            }
            if request_entity(requests[n])@ == k && checks[n].0 && !checks[n].1 {
                assert(request_entity(requests[n])@ == k);
            }
        }
    }
}

/// A placement request whose spot is not placeable, or where something
/// collides, leaves every storage record as it was.
pub proof fn lemma_refused_requests_keep_storage(
    in_storage: Map<Seq<char>, InStorage>,
    requests: Seq<ActionRequest>,
    checks: Seq<(bool, bool)>,
)
    requires
        requests.len() <= checks.len(),
        forall|i: int| 0 <= i < requests.len() ==> !checks[i].0 || checks[i].1,
    ensures
        in_storage_after_requests(in_storage, requests, checks) == in_storage,
{
    let after = in_storage_after_requests(in_storage, requests, checks);
    assert forall|k: Seq<char>| after.dom().contains(k) == in_storage.dom().contains(k) by {
        lemma_requests_remove_only_placed_items(in_storage, requests, checks, k);
    }
    assert forall|k: Seq<char>| after.dom().contains(k) implies after[k] == in_storage[k] by {
        lemma_requests_remove_only_placed_items(in_storage, requests, checks, k);
    }
    assert(after =~= in_storage);
}

/// An effect that tells the objects under the cursor changes only the
/// selection text, to those objects; every other effect leaves the
/// selection text as it was.
pub proof fn lemma_effect_texts(texts: (Seq<char>, Seq<char>), effect: ActionEffect)
    ensures
        match effect {
            ActionEffect::ItemSelected { found_objects_text } => apply_effect(texts, effect) == (
                texts.0,
                found_objects_text@,
            ),
            _ => apply_effect(texts, effect).1 == texts.1,
        },
{
}

/// The action text after a run of effects is the one told by the last
/// effect that is not a selection: selections after position `k` leave the
/// action text as it was after the first `k` effects.
pub proof fn lemma_selections_keep_action_text(
    texts: (Seq<char>, Seq<char>),
    effects: Seq<ActionEffect>,
    k: int,
)
    requires
        0 <= k <= effects.len(),
        forall|i: int| k <= i < effects.len() ==> #[trigger] effects[i] is ItemSelected,
    ensures
        apply_effects(texts, effects).0 == apply_effects(texts, effects.take(k)).0,
    decreases effects.len(),
{
    if effects.len() == k {
        assert(effects.take(k) =~= effects);
    } else {
        let rest = effects.drop_last();
        assert forall|i: int| k <= i < rest.len() implies #[trigger] rest[i] is ItemSelected by {
            assert(rest[i] == effects[i]);
        }
        lemma_selections_keep_action_text(texts, rest, k);
        assert(rest.take(k) =~= effects.take(k));
        assert(effects.last() is ItemSelected) by {
            assert(effects[effects.len() - 1] is ItemSelected);
        }
        lemma_effect_texts(apply_effects(texts, rest), effects.last());
    }
}

} // verus!
