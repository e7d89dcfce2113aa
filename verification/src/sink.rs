//! What the engines hand to the output sinks: physical keys,
//! the composite gamepad state, and the calls to make on a sink.

use vstd::prelude::*;

verus! {

/// A physical key of the keyboard sink.
#[derive(Debug, Clone, Copy, PartialEq, Eq, Structural)]
pub enum Key {
    F1,
    F2,
    F3,
    F4,
    F5,
    F6,
    F7,
    F8,
    F9,
    F10,
    F11,
    F12,
    Shift,
    Control,
    Alt,
    Escape,
    Return,
    Tab,
    Space,
    Backspace,
    Delete,
    Home,
    End,
    PageUp,
    PageDown,
    UpArrow,
    DownArrow,
    LeftArrow,
    RightArrow,
    CapsLock,
    /// The key that produces this character on the active layout.
    Layout(char),
    /// A platform key code.
    Raw(u16),
}

/// The full snapshot of buttons, triggers and axes of the virtual
/// controller. Every update of the gamepad sink carries one.
#[derive(Debug, Clone, Copy, PartialEq, Eq, Structural)]
pub struct GamepadState {
    /// One bit for each pressed button.
    pub buttons: u16,
    pub left_trigger: u8,
    pub right_trigger: u8,
    pub thumb_lx: i16,
    pub thumb_ly: i16,
    pub thumb_rx: i16,
    pub thumb_ry: i16,
}

impl GamepadState {
    /// The state with nothing pressed and both sticks centred.
    pub open spec fn neutral_spec() -> GamepadState {
        GamepadState {
            buttons: 0,
            left_trigger: 0,
            right_trigger: 0,
            thumb_lx: 0,
            thumb_ly: 0,
            thumb_rx: 0,
            thumb_ry: 0,
        }
    }

    /// The state with nothing pressed and both sticks centred.
    pub fn neutral() -> (r: GamepadState)
        ensures
            r == Self::neutral_spec(),
    {
        GamepadState {
            buttons: 0,
            left_trigger: 0,
            right_trigger: 0,
            thumb_lx: 0,
            thumb_ly: 0,
            thumb_rx: 0,
            thumb_ry: 0,
        }
    }
}

/// One call that an engine asks its caller to make, in the order given.
#[derive(Debug, Clone, Copy, PartialEq, Eq, Structural)]
pub enum SinkCall {
    /// Wait this many milliseconds before the next call.
    Delay(u64),
    /// Keyboard sink: key down.
    KeyDown(Key),
    /// Keyboard sink: key up.
    KeyUp(Key),
    /// Gamepad sink: push this composite state.
    Update(GamepadState),
    /// Gamepad sink: detach the virtual device.
    Unplug,
}

} // verus!
