use vstd::prelude::*;

verus! {

/// The state of one key or mouse button, as seen by the game loop.
#[derive(Debug, Default)]
pub struct KeyPress {
    pub is_pressed: bool,
    pub was_pressed: bool,
}

/// The key state after a new press state `new_state` was recorded.
pub open spec fn pressed_to(key: KeyPress, new_state: bool) -> KeyPress {
    KeyPress { is_pressed: new_state, was_pressed: key.is_pressed }
}

/// The key went down: it is down now and was not down before.
pub open spec fn toggled_on(key: KeyPress) -> bool {
    !key.was_pressed && key.is_pressed
}

/// The key state after its rising edge was asked for and consumed.
pub open spec fn after_toggle_check(key: KeyPress) -> KeyPress {
    KeyPress { is_pressed: key.is_pressed, was_pressed: true }
}

impl KeyPress {
    /// Records a new press state; the previous one becomes `was_pressed`.
    pub fn set_press_state(&mut self, new_state: bool)
        ensures
            *final(self) == pressed_to(*old(self), new_state),
    {
        self.was_pressed = self.is_pressed;
        self.is_pressed = new_state;
    }

    /// True exactly on the rising edge: the key is down now and was not down
    /// before. The edge is consumed: `was_pressed` is set, so that the edge is
    /// reported once, not again on every frame while the key stays down.
    pub fn is_toggled_on(&mut self) -> (is_toggled: bool)
        ensures
            is_toggled == toggled_on(*old(self)),
            *final(self) == after_toggle_check(*old(self)),
    {
        let is_toggled = !self.was_pressed && self.is_pressed;
        self.was_pressed = true;
        is_toggled
    }
}

/// A rising edge is reported once: asking again, with no new press state in
/// between, answers false.
pub proof fn lemma_toggle_reported_once(key: KeyPress)
    ensures
        !toggled_on(after_toggle_check(key)),
{
}

/// Releasing and then pressing a key always gives a rising edge, whatever
/// its state before.
pub proof fn lemma_release_then_press_toggles(key: KeyPress)
    ensures
        toggled_on(pressed_to(pressed_to(key, false), true)),
{
}

/// A rising edge needs the last recorded state to be "down".
pub proof fn lemma_toggle_needs_press(key: KeyPress, new_state: bool)
    ensures
        toggled_on(pressed_to(key, new_state)) ==> new_state,
{
}

/// The keys of the keyboard that the game reacts to; every other key is `Other`.
#[derive(Clone, Copy, Debug, PartialEq, Eq)]
pub enum KeyCode {
    KeyW,
    KeyS,
    KeyA,
    KeyD,
    KeyI,
    KeyE,
    ShiftLeft,
    ArrowUp,
    ArrowDown,
    ArrowLeft,
    ArrowRight,
    Other,
}

/// Whether a key or button went down or up.
#[derive(Clone, Copy, Debug, PartialEq, Eq)]
pub enum ElementState {
    Pressed,
    Released,
}

/// The mouse buttons that the game reacts to; every other button is `Other`.
#[derive(Clone, Copy, Debug, PartialEq, Eq)]
pub enum MouseButton {
    Left,
    Right,
    Other,
}

/// The press states of the keys and mouse buttons the game reads.
#[derive(Debug)]
pub struct Input {
    pub w_pressed: KeyPress,
    pub s_pressed: KeyPress,
    pub a_pressed: KeyPress,
    pub d_pressed: KeyPress,
    pub i_pressed: KeyPress,
    pub e_pressed: KeyPress,
    pub up_pressed: KeyPress,
    pub down_pressed: KeyPress,
    pub left_pressed: KeyPress,
    pub right_pressed: KeyPress,
    pub left_shift_pressed: KeyPress,
    pub right_mouse_clicked: KeyPress,
    pub left_mouse_clicked: KeyPress,
}

/// A key state that is up and was up.
pub open spec fn released() -> KeyPress {
    KeyPress { is_pressed: false, was_pressed: false }
}

impl Input {
    /// The state that `key` is tracked in, if the game tracks it.
    pub open spec fn key_state(self, key: KeyCode) -> Option<KeyPress> {
        match key {
            KeyCode::KeyW => Some(self.w_pressed),
            KeyCode::KeyS => Some(self.s_pressed),
            KeyCode::KeyA => Some(self.a_pressed),
            KeyCode::KeyD => Some(self.d_pressed),
            KeyCode::KeyI => Some(self.i_pressed),
            KeyCode::KeyE => Some(self.e_pressed),
            KeyCode::ShiftLeft => Some(self.left_shift_pressed),
            KeyCode::ArrowUp => Some(self.up_pressed),
            KeyCode::ArrowDown => Some(self.down_pressed),
            KeyCode::ArrowLeft => Some(self.left_pressed),
            KeyCode::ArrowRight => Some(self.right_pressed),
            KeyCode::Other => None,
        }
    }

    /// This input with the state of `key` replaced by `state`.
    pub open spec fn with_key_state(self, key: KeyCode, state: KeyPress) -> Input {
        match key {
            KeyCode::KeyW => Input { w_pressed: state, ..self },
            KeyCode::KeyS => Input { s_pressed: state, ..self },
            KeyCode::KeyA => Input { a_pressed: state, ..self },
            KeyCode::KeyD => Input { d_pressed: state, ..self },
            KeyCode::KeyI => Input { i_pressed: state, ..self },
            KeyCode::KeyE => Input { e_pressed: state, ..self },
            KeyCode::ShiftLeft => Input { left_shift_pressed: state, ..self },
            KeyCode::ArrowUp => Input { up_pressed: state, ..self },
            KeyCode::ArrowDown => Input { down_pressed: state, ..self },
            KeyCode::ArrowLeft => Input { left_pressed: state, ..self },
            KeyCode::ArrowRight => Input { right_pressed: state, ..self },
            KeyCode::Other => self,
        }
    }

    /// The state that `button` is tracked in, if the game tracks it.
    pub open spec fn button_state(self, button: MouseButton) -> Option<KeyPress> {
        match button {
            MouseButton::Left => Some(self.left_mouse_clicked),
            MouseButton::Right => Some(self.right_mouse_clicked),
            MouseButton::Other => None,
        }
    }

    /// This input with the state of `button` replaced by `state`.
    pub open spec fn with_button_state(self, button: MouseButton, state: KeyPress) -> Input {
        match button {
            MouseButton::Left => Input { left_mouse_clicked: state, ..self },
            MouseButton::Right => Input { right_mouse_clicked: state, ..self },
            MouseButton::Other => self,
        }
    }

    /// Every key and button is up and was up.
    pub fn new() -> (input: Self)
        ensures
            forall|key: KeyCode| #[trigger]
                input.key_state(key) matches Some(state) ==> state == released(),
            forall|button: MouseButton| #[trigger]
                input.button_state(button) matches Some(state) ==> state == released(),
    {
        Input {
            w_pressed: KeyPress { is_pressed: false, was_pressed: false },
            s_pressed: KeyPress { is_pressed: false, was_pressed: false },
            a_pressed: KeyPress { is_pressed: false, was_pressed: false },
            d_pressed: KeyPress { is_pressed: false, was_pressed: false },
            i_pressed: KeyPress { is_pressed: false, was_pressed: false },
            e_pressed: KeyPress { is_pressed: false, was_pressed: false },
            up_pressed: KeyPress { is_pressed: false, was_pressed: false },
            down_pressed: KeyPress { is_pressed: false, was_pressed: false },
            left_pressed: KeyPress { is_pressed: false, was_pressed: false },
            right_pressed: KeyPress { is_pressed: false, was_pressed: false },
            left_shift_pressed: KeyPress { is_pressed: false, was_pressed: false },
            right_mouse_clicked: KeyPress { is_pressed: false, was_pressed: false },
            left_mouse_clicked: KeyPress { is_pressed: false, was_pressed: false },
        }
    }

    /// Records that `keycode` went down or up; keys the game does not track
    /// leave the input as it is.
    #[verifier::rlimit(50)]
    pub fn update(&mut self, keycode: KeyCode, state: ElementState)
        ensures
            match old(self).key_state(keycode) {
                Some(key) => *final(self) == old(self).with_key_state(
                    keycode,
                    pressed_to(key, state is Pressed),
                ),
                None => *final(self) == *old(self),
            },
    {
        let is_pressed = match state {
            ElementState::Pressed => true,
            ElementState::Released => false,
        };
        match keycode {
            KeyCode::KeyW => {
                self.w_pressed.set_press_state(is_pressed);
            },
            KeyCode::KeyS => {
                self.s_pressed.set_press_state(is_pressed);
            },
            KeyCode::KeyA => {
                self.a_pressed.set_press_state(is_pressed);
            },
            KeyCode::KeyD => {
                self.d_pressed.set_press_state(is_pressed);
            },
            KeyCode::KeyI => {
                self.i_pressed.set_press_state(is_pressed);
            },
            KeyCode::KeyE => {
                self.e_pressed.set_press_state(is_pressed);
            },
            KeyCode::ShiftLeft => {
                self.left_shift_pressed.set_press_state(is_pressed);
            },
            KeyCode::ArrowUp => {
                self.up_pressed.set_press_state(is_pressed);
            },
            KeyCode::ArrowDown => {
                self.down_pressed.set_press_state(is_pressed);
            },
            KeyCode::ArrowLeft => {
                self.left_pressed.set_press_state(is_pressed);
            },
            KeyCode::ArrowRight => {
                self.right_pressed.set_press_state(is_pressed);
            },
            KeyCode::Other => {},
        }
    }

    /// Records that `button` went down or up; buttons the game does not
    /// track leave the input as it is.
    pub fn process_mouse_button(&mut self, button: MouseButton, state: ElementState)
        ensures
            match old(self).button_state(button) {
                Some(key) => *final(self) == old(self).with_button_state(
                    button,
                    pressed_to(key, state is Pressed),
                ),
                None => *final(self) == *old(self),
            },
    {
        let is_pressed = match state {
            ElementState::Pressed => true,
            ElementState::Released => false,
        };
        match button {
            MouseButton::Right => {
                self.right_mouse_clicked.set_press_state(is_pressed);
            },
            MouseButton::Left => {
                self.left_mouse_clicked.set_press_state(is_pressed);
            },
            MouseButton::Other => {},
        }
    }
}

/// An update of one key changes the state of no other key.
pub proof fn lemma_update_keeps_other_keys(input: Input, key: KeyCode, other: KeyCode, state: KeyPress)
    requires
        key != other,
    ensures
        input.with_key_state(key, state).key_state(other) == input.key_state(other),
        input.with_key_state(key, state).button_state(MouseButton::Left) == input.button_state(MouseButton::Left),
        input.with_key_state(key, state).button_state(MouseButton::Right) == input.button_state(MouseButton::Right),
{
}

} // verus!
