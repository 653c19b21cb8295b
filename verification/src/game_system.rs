use vstd::prelude::*;

use crate::input::{after_toggle_check, toggled_on, Input, KeyCode};

verus! {

/// Runs the systems of the game once per frame.
pub struct GameSystem {}

impl GameSystem {
    /// Pressing I opens a closed inventory and closes an open one.
    pub fn handle_inventory(inventory_open: &mut bool, input: &mut Input)
        ensures
            *final(inventory_open) == (*old(inventory_open) != toggled_on(old(input).i_pressed)),
            *final(input) == old(input).with_key_state(
                KeyCode::KeyI,
                after_toggle_check(old(input).i_pressed),
            ),
    {
        if input.i_pressed.is_toggled_on() {
            *inventory_open = !*inventory_open;
        }
    }
}

} // verus!
