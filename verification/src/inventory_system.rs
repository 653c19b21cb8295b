use vstd::prelude::*;

use crate::command_handle_system::ActionEffect;
use crate::components::Entity;
use crate::frame_state::FrameState;
use crate::game_state::GameState;
use crate::input::{after_toggle_check, toggled_on, Input, KeyCode};
use crate::item_placement_system::{placement_effect, placement_outcome, ItemPlacementSystem};
use crate::ui_state::{pointer_outcome, MenuAction, MenuState, UserAction};

verus! {

/// The inventory window, the buttons of the items in it and the menu of an
/// inventory item.
pub struct InventorySystem {}

/// What the item buttons of the inventory decide, in this order: the menu,
/// the input, whether the left click and the right click are handled, and
/// the item asked to be placed in the world.
pub type InventoryClicks<P> = (MenuState<P>, Input, bool, bool, Option<Entity>);

/// One item button, `(item, whether the mouse is over it)`: an unhandled
/// left click asks to place the item and handles the left click; an
/// unhandled right click opens the item's menu at `mouse_position` and
/// handles the right click; a click that was handled already does nothing.
pub open spec fn item_button_step<P>(
    clicks: InventoryClicks<P>,
    button: (Entity, bool),
    mouse_position: P,
) -> InventoryClicks<P> {
    let pointer = pointer_outcome(button.1, clicks.1);
    if pointer.0 == UserAction::LeftClick && !clicks.2 {
        (clicks.0, pointer.1, true, clicks.3, Some(button.0))
    } else if pointer.0 == UserAction::RightClick && !clicks.3 {
        (MenuState::Inventory { mouse_position, item: button.0 }, pointer.1, clicks.2, true, clicks.4)
    } else {
        (clicks.0, pointer.1, clicks.2, clicks.3, clicks.4)
    }
}

/// The item buttons read one after the other.
pub open spec fn item_buttons_outcome<P>(
    clicks: InventoryClicks<P>,
    buttons: Seq<(Entity, bool)>,
    mouse_position: P,
) -> InventoryClicks<P>
    decreases buttons.len(),
{
    if buttons.len() == 0 {
        clicks
    } else {
        item_button_step(
            item_buttons_outcome(clicks, buttons.drop_last(), mouse_position),
            buttons.last(),
            mouse_position,
        )
    }
}

/// However many item buttons there are, a frame asks to place at most one
/// item: one is asked for only on a left click that was not handled before,
/// and the click is handled after. Handled clicks stay handled.
pub proof fn lemma_one_placement_per_frame<P>(
    clicks: InventoryClicks<P>,
    buttons: Seq<(Entity, bool)>,
    mouse_position: P,
)
    requires
        clicks.4 is None,
    ensures
        ({
            let outcome = item_buttons_outcome(clicks, buttons, mouse_position);
            &&& outcome.4 is Some ==> !clicks.2 && outcome.2
            &&& clicks.2 ==> outcome.2
            &&& clicks.3 ==> outcome.3
        }),
    decreases buttons.len(),
{
    if buttons.len() > 0 {
        lemma_one_placement_per_frame(clicks, buttons.drop_last(), mouse_position);
    }
}

/// The buttons of an inventory item menu, "Drop item" and then, when the
/// item has a description, "Examine item", given whether the mouse is over
/// each: the menu, the input and whether the left click is handled
/// afterwards, and the action chosen. A left click on a button that no
/// other system handled asks for its action, closes the menu and handles
/// the click; a left click that was handled already ends the handling.
/// Other menus are left alone.
pub open spec fn inventory_menu_step<P>(
    menu: MenuState<P>,
    input: Input,
    handled_left: bool,
    drop_contained: bool,
    examine_contained: bool,
    has_description: bool,
) -> (MenuState<P>, Input, bool, MenuAction) {
    match menu {
        MenuState::Inventory { item, .. } => {
            let dropped = pointer_outcome(drop_contained, input);
            let examine = pointer_outcome(examine_contained, dropped.1);
            let after = if has_description {
                examine.1
            } else {
                dropped.1
            };
            if dropped.0 == UserAction::LeftClick && handled_left {
                (menu, dropped.1, true, MenuAction::Nothing)
            } else if dropped.0 == UserAction::LeftClick {
                (MenuState::Closed, after, true, MenuAction::Drop(item))
            } else if has_description && examine.0 == UserAction::LeftClick && !handled_left {
                (MenuState::Closed, examine.1, true, MenuAction::Examine(item))
            } else {
                (menu, after, handled_left, MenuAction::Nothing)
            }
        },
        _ => (menu, input, handled_left, MenuAction::Nothing),
    }
}

/// A right click that no other system handled, on an item button under the
/// mouse with no left click before it, opens that item's menu at the mouse
/// position, whatever menu was open before, and handles the right click.
pub proof fn lemma_right_click_opens_item_menu<P>(
    clicks: InventoryClicks<P>,
    button: (Entity, bool),
    mouse_position: P,
)
    requires
        button.1,
        !toggled_on(clicks.1.left_mouse_clicked),
        toggled_on(clicks.1.right_mouse_clicked),
        !clicks.3,
    ensures
        item_button_step(clicks, button, mouse_position).0 == (MenuState::Inventory {
            mouse_position,
            item: button.0,
        }),
        item_button_step(clicks, button, mouse_position).3,
{
}

/// Buttons the mouse is not over read no click and change nothing.
proof fn lemma_buttons_not_under_mouse<P>(
    clicks: InventoryClicks<P>,
    buttons: Seq<(Entity, bool)>,
    mouse_position: P,
)
    requires
        forall|i: int| 0 <= i < buttons.len() ==> !(#[trigger] buttons[i]).1,
    ensures
        item_buttons_outcome(clicks, buttons, mouse_position) == clicks,
    decreases buttons.len(),
{
    if buttons.len() > 0 {
        let rest = buttons.drop_last();
        assert forall|i: int| 0 <= i < rest.len() implies !(#[trigger] rest[i]).1 by {
            assert(rest[i] == buttons[i]);
        }
        lemma_buttons_not_under_mouse(clicks, rest, mouse_position);
        assert(!buttons[buttons.len() - 1].1);
    }
}

/// Once neither button has a click to take, further item buttons keep the
/// menu and whether the clicks are handled.
proof fn lemma_buttons_without_clicks<P>(
    clicks: InventoryClicks<P>,
    buttons: Seq<(Entity, bool)>,
    start: int,
    n: int,
    mouse_position: P,
)
    requires
        0 <= start <= n <= buttons.len(),
        ({
            let at_start = item_buttons_outcome(clicks, buttons.take(start), mouse_position);
            !toggled_on(at_start.1.left_mouse_clicked) && !toggled_on(at_start.1.right_mouse_clicked)
        }),
    ensures
        ({
            let at_start = item_buttons_outcome(clicks, buttons.take(start), mouse_position);
            let at_n = item_buttons_outcome(clicks, buttons.take(n), mouse_position);
            &&& at_n.0 == at_start.0
            &&& at_n.2 == at_start.2
            &&& at_n.3 == at_start.3
            &&& !toggled_on(at_n.1.left_mouse_clicked)
            &&& !toggled_on(at_n.1.right_mouse_clicked)
        }),
    decreases n - start,
{
    if n > start {
        lemma_buttons_without_clicks(clicks, buttons, start, n - 1, mouse_position);
        assert(buttons.take(n).drop_last() =~= buttons.take(n - 1));
        assert(buttons.take(n).last() == buttons[n - 1]);
    }
}

/// A right click that no other system handled, with no left click, opens
/// the menu of the first item button under the mouse at the mouse position,
/// whatever menu was open before; the right click is then handled and no
/// later button changes the menu again.
pub proof fn lemma_right_click_opens_first_item_menu<P>(
    clicks: InventoryClicks<P>,
    buttons: Seq<(Entity, bool)>,
    mouse_position: P,
    j: int,
)
    requires
        0 <= j < buttons.len(),
        forall|i: int| 0 <= i < j ==> !(#[trigger] buttons[i]).1,
        buttons[j].1,
        !toggled_on(clicks.1.left_mouse_clicked),
        toggled_on(clicks.1.right_mouse_clicked),
        !clicks.3,
    ensures
        item_buttons_outcome(clicks, buttons, mouse_position).0 == (MenuState::Inventory {
            mouse_position,
            item: buttons[j].0,
        }),
        item_buttons_outcome(clicks, buttons, mouse_position).3,
{
    let before = buttons.take(j);
    assert forall|i: int| 0 <= i < before.len() implies !(#[trigger] before[i]).1 by {
        assert(before[i] == buttons[i]);
    }
    lemma_buttons_not_under_mouse(clicks, before, mouse_position);
    assert(buttons.take(j + 1).drop_last() =~= before);
    assert(buttons.take(j + 1).last() == buttons[j]);
    lemma_right_click_opens_item_menu(clicks, buttons[j], mouse_position);
    lemma_buttons_without_clicks(clicks, buttons, j + 1, buttons.len() as int, mouse_position);
    assert(buttons.take(buttons.len() as int) =~= buttons);
}

/// A choice in the inventory item menu is made only on a left click that no
/// other system handled before; it is about the menu's own item, closes the
/// menu and handles the click. Examining needs a description. With no
/// choice, the menu stays as it was.
pub proof fn lemma_item_menu_choice_closes<P>(
    menu: MenuState<P>,
    input: Input,
    handled_left: bool,
    drop_contained: bool,
    examine_contained: bool,
    has_description: bool,
)
    ensures
        ({
            let step = inventory_menu_step(
                menu,
                input,
                handled_left,
                drop_contained,
                examine_contained,
                has_description,
            );
            &&& step.3 != MenuAction::Nothing ==> {
                &&& !handled_left
                &&& step.2
                &&& step.0 == MenuState::<P>::Closed
                &&& toggled_on(input.left_mouse_clicked)
                &&& menu matches MenuState::Inventory { item, .. } && (step.3 == MenuAction::Drop(item)
                    || (has_description && step.3 == MenuAction::Examine(item)))
            }
            &&& step.3 == MenuAction::Nothing ==> step.0 == menu && step.2 == handled_left
        }),
{
}

impl InventorySystem {
    /// Pressing I opens a closed inventory and closes an open one. While it
    /// is open, the buttons of the items in it are read in the order given
    /// (see `item_button_step`); the answer is the item asked to be placed.
    pub fn handle_inventory<P: Copy>(
        inventory_open: &mut bool,
        menu_state: &mut MenuState<P>,
        input: &mut Input,
        frame_state: &mut FrameState,
        item_buttons: &Vec<(Entity, bool)>,
        mouse_position: P,
    ) -> (placement: Option<Entity>)
        ensures
            *final(inventory_open) == (*old(inventory_open) != toggled_on(old(input).i_pressed)),
            final(frame_state).objects_on_cursor == old(frame_state).objects_on_cursor,
            final(frame_state).nearest_object == old(frame_state).nearest_object,
            final(frame_state).handled_e_click == old(frame_state).handled_e_click,
            final(frame_state).handled_enter_click == old(frame_state).handled_enter_click,
            ({
                let after_key = old(input).with_key_state(
                    KeyCode::KeyI,
                    after_toggle_check(old(input).i_pressed),
                );
                let start = (
                    *old(menu_state),
                    after_key,
                    old(frame_state).handled_left_click,
                    old(frame_state).handled_right_click,
                    None,
                );
                let end = (
                    *final(menu_state),
                    *final(input),
                    final(frame_state).handled_left_click,
                    final(frame_state).handled_right_click,
                    placement,
                );
                if *final(inventory_open) {
                    end == item_buttons_outcome(start, item_buttons@, mouse_position)
                } else {
                    end == start
                }
            }),
    {
        if input.i_pressed.is_toggled_on() {
            *inventory_open = !*inventory_open;
        }
        if !*inventory_open {
            return None;
        }
        let ghost start = (
            *menu_state,
            *input,
            frame_state.handled_left_click,
            frame_state.handled_right_click,
            None::<Entity>,
        );
        let mut placement: Option<Entity> = None;
        let mut i: usize = 0;
        while i < item_buttons.len()
            invariant
                i <= item_buttons@.len(),
                frame_state.objects_on_cursor == old(frame_state).objects_on_cursor,
                frame_state.nearest_object == old(frame_state).nearest_object,
                frame_state.handled_e_click == old(frame_state).handled_e_click,
                frame_state.handled_enter_click == old(frame_state).handled_enter_click,
                (
                    *menu_state,
                    *input,
                    frame_state.handled_left_click,
                    frame_state.handled_right_click,
                    placement,
                ) == item_buttons_outcome(start, item_buttons@.take(i as int), mouse_position),
            decreases item_buttons@.len() - i,
        {
            proof {
                assert(item_buttons@.take(i + 1).drop_last() =~= item_buttons@.take(i as int));
            }
            let entity = &item_buttons[i].0;
            match UserAction::from_pointer(item_buttons[i].1, input) {
                UserAction::LeftClick => {
                    if !frame_state.handled_left_click {
                        placement = Some(entity.clone());
                        frame_state.handled_left_click = true;
                    }
                },
                UserAction::RightClick => {
                    if !frame_state.handled_right_click {
                        *menu_state = MenuState::Inventory { mouse_position, item: entity.clone() };
                        frame_state.handled_right_click = true;
                    }
                },
                _ => {},
            }
            i = i + 1;
        }
        assert(item_buttons@.take(item_buttons@.len() as int) =~= item_buttons@);
        placement
    }

    /// The buttons of an open inventory item menu (see
    /// `inventory_menu_step`).
    fn handle_inventory_menu_state<P>(
        menu_state: &mut MenuState<P>,
        input: &mut Input,
        frame_state: &mut FrameState,
        drop_contained: bool,
        examine_contained: bool,
        has_description: bool,
    ) -> (action: MenuAction)
        ensures
            (*final(menu_state), *final(input), final(frame_state).handled_left_click, action)
                == inventory_menu_step(
                *old(menu_state),
                *old(input),
                old(frame_state).handled_left_click,
                drop_contained,
                examine_contained,
                has_description,
            ),
            final(frame_state).objects_on_cursor == old(frame_state).objects_on_cursor,
            final(frame_state).nearest_object == old(frame_state).nearest_object,
            final(frame_state).handled_right_click == old(frame_state).handled_right_click,
            final(frame_state).handled_e_click == old(frame_state).handled_e_click,
            final(frame_state).handled_enter_click == old(frame_state).handled_enter_click,
    {
        let item = match menu_state {
            MenuState::Inventory { item, .. } => item.clone(),
            _ => {
                return MenuAction::Nothing;
            },
        };
        let mut action = MenuAction::Nothing;
        let mut close = false;
        if let UserAction::LeftClick = UserAction::from_pointer(drop_contained, input) {
            if frame_state.handled_left_click {
                return MenuAction::Nothing;
            }
            action = MenuAction::Drop(item.clone());
            close = true;
            frame_state.handled_left_click = true;
        }
        if has_description {
            if let UserAction::LeftClick = UserAction::from_pointer(examine_contained, input) {
                if frame_state.handled_left_click {
                    if close {
                        *menu_state = MenuState::Closed;
                    }
                    return action;
                }
                action = MenuAction::Examine(item);
                close = true;
                frame_state.handled_left_click = true;
            }
        }
        if close {
            *menu_state = MenuState::Closed;
        }
        action
    }

    /// The menu of an inventory item (see `inventory_menu_step`). A click on
    /// "Drop item" places the item in front of the player (see
    /// `place_item`), given whether that spot is `placeable` and whether
    /// something is `colliding` there, and adds what the player is told to
    /// `action_effects`; a click on "Examine item" is answered, for the
    /// caller to tell the item's description. The answer is the action
    /// chosen.
    pub fn display_inventory_item_menu<P>(
        game_state: &mut GameState,
        menu_state: &mut MenuState<P>,
        input: &mut Input,
        frame_state: &mut FrameState,
        action_effects: &mut Vec<ActionEffect>,
        drop_contained: bool,
        examine_contained: bool,
        has_description: bool,
        placeable: bool,
        colliding: bool,
    ) -> (action: MenuAction)
        requires
            old(game_state).wf(),
        ensures
            (*final(menu_state), *final(input), final(frame_state).handled_left_click, action)
                == inventory_menu_step(
                *old(menu_state),
                *old(input),
                old(frame_state).handled_left_click,
                drop_contained,
                examine_contained,
                has_description,
            ),
            final(frame_state).objects_on_cursor == old(frame_state).objects_on_cursor,
            final(frame_state).nearest_object == old(frame_state).nearest_object,
            final(frame_state).handled_right_click == old(frame_state).handled_right_click,
            final(frame_state).handled_e_click == old(frame_state).handled_e_click,
            final(frame_state).handled_enter_click == old(frame_state).handled_enter_click,
            match action {
                MenuAction::Drop(item) => {
                    &&& final(action_effects)@ == old(action_effects)@.push(
                        placement_effect(placeable, colliding),
                    )
                    &&& placement_outcome(*old(game_state), *final(game_state), item, placeable, colliding)
                },
                _ => {
                    &&& final(action_effects)@ == old(action_effects)@
                    &&& *final(game_state) == *old(game_state)
                },
            },
    {
        let action = Self::handle_inventory_menu_state(
            menu_state,
            input,
            frame_state,
            drop_contained,
            examine_contained,
            has_description,
        );
        if let MenuAction::Drop(item) = &action {
            ItemPlacementSystem::place_item(game_state, action_effects, item, placeable, colliding);
        }
        action
    }
}

} // verus!
