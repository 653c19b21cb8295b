use vstd::prelude::*;

use crate::frame_state::FrameState;
use crate::input::{after_toggle_check, toggled_on, Input, KeyPress};
use crate::ui_state::{pointer_outcome, InputState, UserAction};

verus! {

/// Switches the keyboard between playing and chatting, and shows the chat.
pub struct ChatSystem {}

/// The input state after Enter: a rising edge of Enter switches between
/// playing and chatting.
pub open spec fn chat_switch(input_state: InputState, enter_toggled: bool) -> InputState {
    if !enter_toggled {
        input_state
    } else {
        match input_state {
            InputState::Normal => InputState::Chat,
            InputState::Chat => InputState::Normal,
        }
    }
}

/// Two rising edges of Enter bring the keyboard back where it was.
pub proof fn lemma_chat_switch_twice(input_state: InputState)
    ensures
        chat_switch(chat_switch(input_state, true), true) == input_state,
{
}

impl ChatSystem {
    /// A rising edge of Enter, whose state `enter_pressed` is kept beside the
    /// input of the game, switches between playing and chatting, marks Enter
    /// as handled and shows the chat window exactly while chatting.
    /// Then, while the chat window is shown, its box is read, given whether
    /// the mouse is over it, so that a click on it reaches nothing behind.
    pub fn handle_chat(
        input_state: &mut InputState,
        chat_visible: &mut bool,
        enter_pressed: &mut KeyPress,
        input: &mut Input,
        frame_state: &mut FrameState,
        chat_contained: bool,
    )
        ensures
            ({
                let enter = toggled_on(*old(enter_pressed));
                &&& *final(input_state) == chat_switch(*old(input_state), enter)
                &&& *final(chat_visible) == if enter {
                    *final(input_state) == InputState::Chat
                } else {
                    *old(chat_visible)
                }
                &&& final(frame_state).handled_enter_click == (old(frame_state).handled_enter_click
                    || enter)
                &&& *final(enter_pressed) == after_toggle_check(*old(enter_pressed))
                &&& *final(input) == if *final(chat_visible) {
                    pointer_outcome(chat_contained, *old(input)).1
                } else {
                    *old(input)
                }
            }),
            final(frame_state).objects_on_cursor == old(frame_state).objects_on_cursor,
            final(frame_state).nearest_object == old(frame_state).nearest_object,
            final(frame_state).handled_left_click == old(frame_state).handled_left_click,
            final(frame_state).handled_right_click == old(frame_state).handled_right_click,
            final(frame_state).handled_e_click == old(frame_state).handled_e_click,
    {
        let mut new_input_state: Option<InputState> = None;
        match *input_state {
            InputState::Normal => {
                if enter_pressed.is_toggled_on() {
                    new_input_state = Some(InputState::Chat);
                }
            },
            InputState::Chat => {
                if enter_pressed.is_toggled_on() {
                    new_input_state = Some(InputState::Normal);
                }
            },
        }
        if let Some(new_state) = new_input_state {
            *input_state = new_state;
            frame_state.handled_enter_click = true;
            *chat_visible = match new_state {
                InputState::Chat => true,
                InputState::Normal => false,
            };
        }
        Self::display_chat(*chat_visible, input, chat_contained);
    }

    /// While the chat window is shown, reads its box.
    fn display_chat(chat_visible: bool, input: &mut Input, chat_contained: bool)
        ensures
            *final(input) == if chat_visible {
                pointer_outcome(chat_contained, *old(input)).1
            } else {
                *old(input)
            },
    {
        if !chat_visible {
            return;
        }
        let _ = UserAction::from_pointer(chat_contained, input);
    }
}

} // verus!
