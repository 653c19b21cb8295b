use vstd::prelude::*;

use crate::components::Entity;
use crate::input::{after_toggle_check, toggled_on, Input, MouseButton};

verus! {

/// What the user did to an element of the interface during this frame.
#[derive(Clone, Copy, Debug, PartialEq, Eq)]
pub enum UserAction {
    Idle,
    Hover,
    LeftClick,
    RightClick,
}

/// The action on an element over which the mouse is `contained` or not, and
/// the input after the click states were read: over the element a left
/// click comes first, then a right click, else a hover; the click states are
/// read, and their edges consumed, only while the mouse is over the element,
/// the right one only when the left did not click.
pub open spec fn pointer_outcome(contained: bool, input: Input) -> (UserAction, Input) {
    let left = input.left_mouse_clicked;
    let right = input.right_mouse_clicked;
    let left_read = input.with_button_state(MouseButton::Left, after_toggle_check(left));
    let both_read = left_read.with_button_state(MouseButton::Right, after_toggle_check(right));
    if !contained {
        (UserAction::Idle, input)
    } else if toggled_on(left) {
        (UserAction::LeftClick, left_read)
    } else if toggled_on(right) {
        (UserAction::RightClick, both_read)
    } else {
        (UserAction::Hover, both_read)
    }
}

impl UserAction {
    /// The action on an element, given whether the mouse is over it (see
    /// `pointer_outcome`).
    pub fn from_pointer(mouse_is_contained: bool, input: &mut Input) -> (action: UserAction)
        ensures
            (action, *final(input)) == pointer_outcome(mouse_is_contained, *old(input)),
    {
        if mouse_is_contained && input.left_mouse_clicked.is_toggled_on() {
            return UserAction::LeftClick;
        }
        if mouse_is_contained && input.right_mouse_clicked.is_toggled_on() {
            return UserAction::RightClick;
        }
        if mouse_is_contained {
            return UserAction::Hover;
        }
        UserAction::Idle
    }
}

/// The menu that is open, with the mouse position it was opened at.
pub enum MenuState<P> {
    Closed,
    /// The menu of an object in the world.
    World { mouse_position: P, item: Entity },
    /// The menu of an item in the inventory.
    Inventory { mouse_position: P, item: Entity },
}

/// What a choice in a menu asks the game to do.
#[derive(PartialEq, Eq, Debug)]
pub enum MenuAction {
    Nothing,
    PickUp(Entity),
    Drop(Entity),
    Examine(Entity),
}

/// The dialogue that is open, with the mouse position it was opened at.
pub enum DialogueState<P> {
    Closed,
    Npc { mouse_position: P, npc_entity_id: Entity, dialogue_id: String },
}

/// Whether the keyboard plays the game or writes in the chat.
#[derive(Clone, Copy, Debug, PartialEq, Eq)]
pub enum InputState {
    Normal,
    Chat,
}

} // verus!
