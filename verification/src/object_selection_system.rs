use vstd::prelude::*;

use crate::command_handle_system::ActionEffect;
use crate::components::Entity;
use crate::frame_state::FrameState;
use crate::game_state::GameState;
use crate::input::{after_toggle_check, toggled_on, Input, MouseButton};
use crate::item_pickup_system::{pickup_outcome, store_item_requires, ItemPickupSystem};
use crate::ui_state::{pointer_outcome, MenuAction, MenuState, UserAction};

verus! {

/// Opens the menu of the objects under the cursor and handles its buttons.
pub struct ObjectSelectionSystem();

/// What only the coordinates tell of a world menu: whether the mouse is
/// over its "Pick up item" button and over its "Examine item" button, and
/// whether its item is within reach of the player.
#[derive(Clone, Copy)]
pub struct WorldMenuView {
    pub pickup_contained: bool,
    pub examine_contained: bool,
    pub item_in_range: bool,
}

/// A right click that no other system handled this frame, with an object
/// under the cursor, opens the world menu.
pub open spec fn opens_world_menu(input: Input, frame_state: FrameState) -> bool {
    toggled_on(input.right_mouse_clicked) && !frame_state.handled_right_click
        && frame_state.objects_on_cursor@.len() > 0
}

/// The buttons of a world menu, "Pick up item" and then "Examine item",
/// given whether the mouse is over each: the menu, the input and whether the
/// left click is handled afterwards, and the action chosen. A left click on
/// a button that no other system handled asks for its action, closes the
/// menu and handles the click; a left click that was handled already ends
/// the handling, with the menu left open. Other menus are left alone.
pub open spec fn world_menu_step<P>(
    menu: MenuState<P>,
    input: Input,
    handled_left: bool,
    pickup_contained: bool,
    examine_contained: bool,
) -> (MenuState<P>, Input, bool, MenuAction) {
    match menu {
        MenuState::World { item, .. } => {
            let pickup = pointer_outcome(pickup_contained, input);
            let examine = pointer_outcome(examine_contained, pickup.1);
            if pickup.0 == UserAction::LeftClick && handled_left {
                (menu, pickup.1, true, MenuAction::Nothing)
            } else if pickup.0 == UserAction::LeftClick {
                (MenuState::Closed, examine.1, true, MenuAction::PickUp(item))
            } else if examine.0 == UserAction::LeftClick && !handled_left {
                (MenuState::Closed, examine.1, true, MenuAction::Examine(item))
            } else {
                (menu, examine.1, handled_left, MenuAction::Nothing)
            }
        },
        _ => (menu, input, handled_left, MenuAction::Nothing),
    }
}

/// One frame of object selection: the world menu opens at `mouse_position`
/// for the first object under the cursor when `opens_world_menu` holds, and
/// the right click is then handled; the right click is read in any case.
/// Then the buttons of the menu are read (see `world_menu_step`), with the
/// view `opened_view` of the menu opened now or `open_view` of the menu that
/// was open. The answer holds the menu, the input, whether the right and the
/// left click are handled, the action chosen and the view used.
pub open spec fn object_selection_step<P>(
    menu: MenuState<P>,
    input: Input,
    frame_state: FrameState,
    mouse_position: P,
    opened_view: WorldMenuView,
    open_view: WorldMenuView,
) -> (MenuState<P>, Input, bool, bool, MenuAction, WorldMenuView) {
    let opens = opens_world_menu(input, frame_state);
    let opened = if opens {
        MenuState::World { mouse_position, item: frame_state.objects_on_cursor@[0] }
    } else {
        menu
    };
    let right_read = input.with_button_state(
        MouseButton::Right,
        after_toggle_check(input.right_mouse_clicked),
    );
    let view = if opens {
        opened_view
    } else {
        open_view
    };
    let buttons = world_menu_step(
        opened,
        right_read,
        frame_state.handled_left_click,
        view.pickup_contained,
        view.examine_contained,
    );
    (buttons.0, buttons.1, frame_state.handled_right_click || opens, buttons.2, buttons.3, view)
}

/// A right click that no other system handled, with an object under the
/// cursor, opens the world menu for the first of those objects at the mouse
/// position, whatever menu was open before, handles the right click, and
/// reads the buttons of that menu where they are at the mouse: the menu
/// then stays open for that object, or a button closes it and picks that
/// object up or examines it.
pub proof fn lemma_right_click_opens_world_menu<P>(
    menu: MenuState<P>,
    input: Input,
    frame_state: FrameState,
    mouse_position: P,
    opened_view: WorldMenuView,
    open_view: WorldMenuView,
)
    requires
        toggled_on(input.right_mouse_clicked),
        !frame_state.handled_right_click,
        frame_state.objects_on_cursor@.len() > 0,
    ensures
        ({
            let step = object_selection_step(
                menu,
                input,
                frame_state,
                mouse_position,
                opened_view,
                open_view,
            );
            let item = frame_state.objects_on_cursor@[0];
            &&& step.2
            &&& step.5 == opened_view
            &&& {
                ||| step.0 == MenuState::World { mouse_position, item } && step.4 == MenuAction::Nothing
                ||| step.0 == MenuState::<P>::Closed && step.4 == MenuAction::PickUp(item)
                ||| step.0 == MenuState::<P>::Closed && step.4 == MenuAction::Examine(item)
            }
        }),
{
}

/// Without a right click to take, no menu opens: the menu that was open
/// stays that menu until one of its own buttons closes it, and its view is
/// the one used.
pub proof fn lemma_no_right_click_keeps_menu<P>(
    menu: MenuState<P>,
    input: Input,
    frame_state: FrameState,
    mouse_position: P,
    opened_view: WorldMenuView,
    open_view: WorldMenuView,
)
    requires
        !toggled_on(input.right_mouse_clicked) || frame_state.handled_right_click,
    ensures
        ({
            let step = object_selection_step(
                menu,
                input,
                frame_state,
                mouse_position,
                opened_view,
                open_view,
            );
            &&& step.2 == frame_state.handled_right_click
            &&& step.5 == open_view
            &&& step.0 == menu || step.0 == MenuState::<P>::Closed
        }),
{
}

/// A choice in the world menu is made only on a left click that no other
/// system handled before; it is about the menu's own item, closes the menu
/// and handles the click. With no choice, the menu stays as it was.
pub proof fn lemma_world_menu_choice_closes<P>(
    menu: MenuState<P>,
    input: Input,
    handled_left: bool,
    pickup_contained: bool,
    examine_contained: bool,
)
    ensures
        ({
            let step = world_menu_step(menu, input, handled_left, pickup_contained, examine_contained);
            &&& step.3 != MenuAction::Nothing ==> {
                &&& !handled_left
                &&& step.2
                &&& step.0 == MenuState::<P>::Closed
                &&& toggled_on(input.left_mouse_clicked)
                &&& menu matches MenuState::World { item, .. } && (step.3 == MenuAction::PickUp(item)
                    || step.3 == MenuAction::Examine(item))
            }
            &&& step.3 == MenuAction::Nothing ==> step.0 == menu && step.2 == handled_left
        }),
{
}

impl ObjectSelectionSystem {
    /// The menu opens on a right click that no other system has handled in
    /// this frame, when there is an object under the cursor. The right click
    /// is read, and its edge consumed, in any case.
    pub fn should_open_menu(input: &mut Input, frame_state: &FrameState, selected_objects: &Vec<Entity>) -> (open: bool)
        ensures
            open == (toggled_on(old(input).right_mouse_clicked) && !frame_state.handled_right_click
                && selected_objects@.len() > 0),
            *final(input) == old(input).with_button_state(
                MouseButton::Right,
                after_toggle_check(old(input).right_mouse_clicked),
            ),
    {
        if !input.right_mouse_clicked.is_toggled_on() {
            return false;
        }
        if frame_state.handled_right_click {
            return false;
        }
        if selected_objects.is_empty() {
            return false;
        }
        true
    }

    /// Opens the world menu at `mouse_position` for the first object under
    /// the cursor when `should_open_menu` says so, and marks the right click
    /// as handled; otherwise leaves the menu as it is. The answer is whether
    /// the menu was opened.
    pub fn open_menu<P>(menu_state: &mut MenuState<P>, input: &mut Input, frame_state: &mut FrameState, mouse_position: P) -> (opened: bool)
        ensures
            opened == opens_world_menu(*old(input), *old(frame_state)),
            *final(input) == old(input).with_button_state(
                MouseButton::Right,
                after_toggle_check(old(input).right_mouse_clicked),
            ),
            final(frame_state).objects_on_cursor == old(frame_state).objects_on_cursor,
            final(frame_state).nearest_object == old(frame_state).nearest_object,
            final(frame_state).handled_left_click == old(frame_state).handled_left_click,
            final(frame_state).handled_e_click == old(frame_state).handled_e_click,
            final(frame_state).handled_enter_click == old(frame_state).handled_enter_click,
            if opened {
                &&& *final(menu_state) == (MenuState::World {
                    mouse_position,
                    item: old(frame_state).objects_on_cursor@[0],
                })
                &&& final(frame_state).handled_right_click
            } else {
                &&& *final(menu_state) == *old(menu_state)
                &&& final(frame_state).handled_right_click == old(frame_state).handled_right_click
            },
    {
        if Self::should_open_menu(input, frame_state, &frame_state.objects_on_cursor) {
            let item = frame_state.objects_on_cursor[0].clone();
            *menu_state = MenuState::World { mouse_position, item };
            frame_state.handled_right_click = true;
            true
        } else {
            false
        }
    }

    /// The buttons of an open world menu (see `world_menu_step`).
    fn handle_world_menu<P>(
        menu_state: &mut MenuState<P>,
        input: &mut Input,
        frame_state: &mut FrameState,
        pickup_contained: bool,
        examine_contained: bool,
    ) -> (action: MenuAction)
        ensures
            (*final(menu_state), *final(input), final(frame_state).handled_left_click, action)
                == world_menu_step(
                *old(menu_state),
                *old(input),
                old(frame_state).handled_left_click,
                pickup_contained,
                examine_contained,
            ),
            final(frame_state).objects_on_cursor == old(frame_state).objects_on_cursor,
            final(frame_state).nearest_object == old(frame_state).nearest_object,
            final(frame_state).handled_right_click == old(frame_state).handled_right_click,
            final(frame_state).handled_e_click == old(frame_state).handled_e_click,
            final(frame_state).handled_enter_click == old(frame_state).handled_enter_click,
    {
        let item = match menu_state {
            MenuState::World { item, .. } => item.clone(),
            _ => {
                return MenuAction::Nothing;
            },
        };
        let mut action = MenuAction::Nothing;
        let mut close = false;
        if let UserAction::LeftClick = UserAction::from_pointer(pickup_contained, input) {
            if frame_state.handled_left_click {
                return MenuAction::Nothing;
            }
            action = MenuAction::PickUp(item.clone());
            close = true;
            frame_state.handled_left_click = true;
        }
        if let UserAction::LeftClick = UserAction::from_pointer(examine_contained, input) {
            if frame_state.handled_left_click {
                return action;
            }
            action = MenuAction::Examine(item);
            close = true;
            frame_state.handled_left_click = true;
        }
        if close {
            *menu_state = MenuState::Closed;
        }
        action
    }

    /// One frame of object selection (see `object_selection_step`): opens
    /// the world menu on a right click over objects and reads its buttons.
    /// A click on "Pick up item" picks the item up into the storage of
    /// `owner` (see `pickup_outcome`) and adds what the player is told to
    /// `action_effects`; a click on "Examine item" is answered, for the
    /// caller to tell the item's description. The answer is the action
    /// chosen.
    pub fn handle_object_selection<P>(
        game_state: &mut GameState,
        menu_state: &mut MenuState<P>,
        input: &mut Input,
        frame_state: &mut FrameState,
        action_effects: &mut Vec<ActionEffect>,
        owner: &Entity,
        mouse_position: P,
        opened_view: WorldMenuView,
        open_view: WorldMenuView,
    ) -> (action: MenuAction)
        requires
            old(game_state).wf(),
            ({
                let step = object_selection_step(
                    *old(menu_state),
                    *old(input),
                    *old(frame_state),
                    mouse_position,
                    opened_view,
                    open_view,
                );
                match step.4 {
                    MenuAction::PickUp(item) => old(game_state).storable_components@.dom().contains(item@)
                        && step.5.item_in_range ==> store_item_requires(*old(game_state), *owner, item),
                    _ => true,
                }
            }),
        ensures
            ({
                let step = object_selection_step(
                    *old(menu_state),
                    *old(input),
                    *old(frame_state),
                    mouse_position,
                    opened_view,
                    open_view,
                );
                &&& *final(menu_state) == step.0
                &&& *final(input) == step.1
                &&& final(frame_state).handled_right_click == step.2
                &&& final(frame_state).handled_left_click == step.3
                &&& action == step.4
                &&& match action {
                    MenuAction::PickUp(item) => {
                        &&& final(action_effects)@.len() == old(action_effects)@.len() + 1
                        &&& final(action_effects)@.drop_last() == old(action_effects)@
                        &&& pickup_outcome(
                            *old(game_state),
                            *final(game_state),
                            *owner,
                            item,
                            step.5.item_in_range,
                            final(action_effects)@.last(),
                        )
                    },
                    _ => {
                        &&& final(action_effects)@ == old(action_effects)@
                        &&& *final(game_state) == *old(game_state)
                    },
                }
            }),
            final(frame_state).objects_on_cursor == old(frame_state).objects_on_cursor,
            final(frame_state).nearest_object == old(frame_state).nearest_object,
            final(frame_state).handled_e_click == old(frame_state).handled_e_click,
            final(frame_state).handled_enter_click == old(frame_state).handled_enter_click,
    {
        let opened = Self::open_menu(menu_state, input, frame_state, mouse_position);
        let view = if opened {
            opened_view
        } else {
            open_view
        };
        let action = Self::handle_world_menu(
            menu_state,
            input,
            frame_state,
            view.pickup_contained,
            view.examine_contained,
        );
        if let MenuAction::PickUp(item) = &action {
            let effect = ItemPickupSystem::item_pickup(game_state, owner, item, view.item_in_range);
            action_effects.push(effect);
            proof {
                assert(action_effects@.drop_last() =~= old(action_effects)@);
            }
        }
        action
    }
}

} // verus!
