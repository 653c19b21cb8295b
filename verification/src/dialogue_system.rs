use vstd::prelude::*;

use crate::components::Entity;
use crate::dialogue_manager::{intro_id, intro_text, DialogueManager};
use crate::frame_state::FrameState;
use crate::input::{after_toggle_check, toggled_on, Input, KeyCode};
use crate::ui_state::{pointer_outcome, DialogueState, UserAction};

verus! {

/// Opens, shows and closes the dialogues with the characters of the world.
pub struct DialogueSystem {}

/// The character nearest to the player that has a dialogue.
pub struct DialoguePartner {
    pub entity: Entity,
    /// The name of the character's dialogue.
    pub dialogue_id: String,
    /// Whether the character is close enough to talk to.
    pub in_range: bool,
}

impl DialogueSystem {
    /// The talk key: on a rising edge of E that no other system handled this
    /// frame, opens the dialogue of `partner` at `mouse_position` when the
    /// partner is in range, and marks the key as handled; otherwise leaves
    /// everything as it is. The edge of E is consumed in any case.
    pub fn handle_open_dialogue_keyboard<P>(
        dialogue_state: &mut DialogueState<P>,
        input: &mut Input,
        frame_state: &mut FrameState,
        partner: Option<DialoguePartner>,
        mouse_position: P,
    )
        ensures
            *final(input) == old(input).with_key_state(
                KeyCode::KeyE,
                after_toggle_check(old(input).e_pressed),
            ),
            final(frame_state).objects_on_cursor == old(frame_state).objects_on_cursor,
            final(frame_state).nearest_object == old(frame_state).nearest_object,
            final(frame_state).handled_left_click == old(frame_state).handled_left_click,
            final(frame_state).handled_right_click == old(frame_state).handled_right_click,
            final(frame_state).handled_enter_click == old(frame_state).handled_enter_click,
            match partner {
                Some(p) if toggled_on(old(input).e_pressed) && !old(frame_state).handled_e_click
                    && p.in_range => {
                    &&& *final(dialogue_state) == (DialogueState::Npc {
                        mouse_position,
                        npc_entity_id: p.entity,
                        dialogue_id: p.dialogue_id,
                    })
                    &&& final(frame_state).handled_e_click
                },
                _ => {
                    &&& *final(dialogue_state) == *old(dialogue_state)
                    &&& final(frame_state).handled_e_click == old(frame_state).handled_e_click
                },
            },
    {
        if input.e_pressed.is_toggled_on() && !frame_state.handled_e_click {
            if let Some(partner) = partner {
                if !partner.in_range {
                    return;
                }
                *dialogue_state = DialogueState::Npc {
                    mouse_position,
                    npc_entity_id: partner.entity,
                    dialogue_id: partner.dialogue_id,
                };
                frame_state.handled_e_click = true;
            }
        }
    }

    /// An open dialogue: its box and then its close button are read, given
    /// whether the mouse is over each, and its text is answered to be shown.
    /// A left click on the close button, or the character leaving the range,
    /// closes the dialogue. With no dialogue open, nothing happens.
    pub fn display_dialogue<P>(
        dialogue_state: &mut DialogueState<P>,
        input: &mut Input,
        dialogue_contained: bool,
        close_contained: bool,
        npc_in_range: bool,
    ) -> (text: Option<String>)
        requires
            match *old(dialogue_state) {
                DialogueState::Npc { dialogue_id, .. } => dialogue_id@ == intro_id(),
                DialogueState::Closed => true,
            },
        ensures
            match *old(dialogue_state) {
                DialogueState::Npc { .. } => {
                    let shown = pointer_outcome(dialogue_contained, *old(input));
                    let close_button = pointer_outcome(close_contained, shown.1);
                    &&& text matches Some(t) && t@ == intro_text()
                    &&& *final(input) == close_button.1
                    &&& if close_button.0 == UserAction::LeftClick || !npc_in_range {
                        *final(dialogue_state) == DialogueState::<P>::Closed
                    } else {
                        *final(dialogue_state) == *old(dialogue_state)
                    }
                },
                DialogueState::Closed => {
                    &&& text is None
                    &&& *final(dialogue_state) == *old(dialogue_state)
                    &&& *final(input) == *old(input)
                },
            },
    {
        let mut close = false;
        let text = match &*dialogue_state {
            DialogueState::Npc { dialogue_id, .. } => {
                let _ = UserAction::from_pointer(dialogue_contained, input);
                let dialogue_manager = DialogueManager::new();
                let dialogue = dialogue_manager.get_dialogue(dialogue_id.as_str()).unwrap();
                let text = dialogue.text.clone();
                match UserAction::from_pointer(close_contained, input) {
                    UserAction::Hover => {
                        if let UserAction::LeftClick = UserAction::from_pointer(close_contained, input) {
                            close = true;
                        }
                    },
                    UserAction::LeftClick => {
                        close = true;
                    },
                    _ => {},
                }
                if !npc_in_range {
                    close = true;
                }
                Some(text)
            },
            DialogueState::Closed => None,
        };
        if close {
            *dialogue_state = DialogueState::Closed;
        }
        text
    }
}

} // verus!
