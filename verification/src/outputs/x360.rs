//! The gamepad engine: buttons, triggers and the D-pad, which
//! is exposed as the position of the left stick.

use crate::sink::{GamepadState, SinkCall};
use crate::text::{decimal_string, decimal_text};
use crate::types::{
    ButtonEvent, DpadDirection, OutputAdapter, TriggerName, X360ButtonEntry, X360ButtonName,
    X360Mapping,
};
use vstd::prelude::*;

verus! {

/// The lowest position of an axis.
pub const AXIS_MIN: i16 = -32768;

/// The highest position of an axis.
pub const AXIS_MAX: i16 = 32767;

/// The value of a trigger that is fully pulled.
pub const TRIGGER_MAX: u8 = 255;

/// The bit of a controller button in the button word of the state.
pub open spec fn button_flag(name: X360ButtonName) -> u16 {
    match name {
        X360ButtonName::Start => 0x0010,
        X360ButtonName::Back => 0x0020,
        X360ButtonName::LeftThumb => 0x0040,
        X360ButtonName::RightThumb => 0x0080,
        X360ButtonName::LeftShoulder => 0x0100,
        X360ButtonName::RightShoulder => 0x0200,
        X360ButtonName::Guide => 0x0400,
        X360ButtonName::A => 0x1000,
        X360ButtonName::B => 0x2000,
        X360ButtonName::X => 0x4000,
        X360ButtonName::Y => 0x8000,
    }
}

/// The four direction flags of the D-pad.
#[derive(Debug, Clone, Copy, PartialEq, Eq, Structural)]
pub struct DpadFlags {
    pub up: bool,
    pub down: bool,
    pub left: bool,
    pub right: bool,
}

impl DpadFlags {
    /// The flags with the one for `direction` set to `pressed`.
    pub open spec fn with(self, direction: DpadDirection, pressed: bool) -> DpadFlags {
        match direction {
            DpadDirection::Up => DpadFlags { up: pressed, ..self },
            DpadDirection::Down => DpadFlags { down: pressed, ..self },
            DpadDirection::Left => DpadFlags { left: pressed, ..self },
            DpadDirection::Right => DpadFlags { right: pressed, ..self },
        }
    }

    /// The horizontal position: lowest while left alone is held, highest
    /// while right alone is held, and centred while both or neither are.
    pub open spec fn horizontal(self) -> i16 {
        if self.left && !self.right {
            AXIS_MIN
        } else if self.right && !self.left {
            AXIS_MAX
        } else {
            0
        }
    }

    /// The vertical position: highest while up is held, else lowest while
    /// down is held, else centred.
    pub open spec fn vertical(self) -> i16 {
        if self.up {
            AXIS_MAX
        } else if self.down {
            AXIS_MIN
        } else {
            0
        }
    }
}

impl GamepadState {
    /// The state with the bit of `name` set or cleared.
    pub open spec fn with_button(self, name: X360ButtonName, pressed: bool) -> GamepadState {
        GamepadState {
            buttons: if pressed {
                self.buttons | button_flag(name)
            } else {
                self.buttons & !button_flag(name)
            },
            ..self
        }
    }

    /// The state with `trigger` fully pulled or fully let go.
    pub open spec fn with_trigger(self, trigger: TriggerName, pressed: bool) -> GamepadState {
        let value = if pressed {
            TRIGGER_MAX
        } else {
            0u8
        };
        match trigger {
            TriggerName::Left => GamepadState { left_trigger: value, ..self },
            TriggerName::Right => GamepadState { right_trigger: value, ..self },
        }
    }

    /// The state with the left stick where the D-pad flags put it.
    pub open spec fn with_dpad(self, flags: DpadFlags) -> GamepadState {
        GamepadState { thumb_lx: flags.horizontal(), thumb_ly: flags.vertical(), ..self }
    }
}

/// The gamepad engine as a mathematical value: its configuration, then the
/// composite state and the D-pad flags.
pub struct X360View {
    /// From button-id text to what the button drives.
    pub buttons: Map<Seq<char>, X360ButtonEntry>,
    pub offset_ms: u64,
    pub gamepad: GamepadState,
    pub dpad: DpadFlags,
}

impl X360View {
    /// Whether the left stick is where the D-pad flags put it.
    pub open spec fn stick_follows_dpad(self) -> bool {
        self.gamepad.thumb_lx == self.dpad.horizontal() && self.gamepad.thumb_ly
            == self.dpad.vertical()
    }

    /// What the button `id` drives, if the mapping knows it.
    pub open spec fn entry(self, id: u8) -> Option<X360ButtonEntry> {
        let id_text = decimal_text(id as nat);
        if self.buttons.contains_key(id_text) {
            Some(self.buttons[id_text])
        } else {
            None
        }
    }

    /// The engine after `entry` is pressed or released.
    pub open spec fn apply(self, entry: X360ButtonEntry, pressed: bool) -> X360View {
        match entry {
            X360ButtonEntry::Button { name } => X360View {
                gamepad: self.gamepad.with_button(name, pressed),
                ..self
            },
            X360ButtonEntry::Trigger { trigger } => X360View {
                gamepad: self.gamepad.with_trigger(trigger, pressed),
                ..self
            },
            X360ButtonEntry::Dpad { direction } => {
                let dpad = self.dpad.with(direction, pressed);
                X360View { gamepad: self.gamepad.with_dpad(dpad), dpad, ..self }
            },
        }
    }

    /// The engine and the sink calls after `event`. A button that the
    /// mapping does not know changes nothing and calls nothing. Any other
    /// event changes the composite state and pushes it whole, after the
    /// injection offset.
    pub open spec fn on_button(self, event: ButtonEvent) -> (X360View, Seq<SinkCall>) {
        match self.entry(event.id) {
            Some(entry) => {
                let after = self.apply(entry, event.pressed);
                let push = SinkCall::Update(after.gamepad);
                (
                    after,
                    if self.offset_ms > 0 {
                        seq![SinkCall::Delay(self.offset_ms), push]
                    } else {
                        seq![push]
                    },
                )
            },
            None => (self, Seq::empty()),
        }
    }

    /// The engine and the sink calls at the end of a run: the composite
    /// state becomes neutral and is pushed, then the device is detached.
    pub open spec fn on_shutdown(self) -> (X360View, Seq<SinkCall>) {
        (
            X360View { gamepad: GamepadState::neutral_spec(), ..self },
            seq![SinkCall::Update(GamepadState::neutral_spec()), SinkCall::Unplug],
        )
    }
}

/// Whatever the D-pad flags are, each axis is at one extreme or centred,
/// and it is centred when neither flag of its pair is set. With left and
/// right both held the horizontal axis is centred too; with up and down
/// both held the vertical axis is at its highest.
pub proof fn lemma_dpad_axes(flags: DpadFlags)
    ensures
        flags.horizontal() == AXIS_MIN || flags.horizontal() == AXIS_MAX || flags.horizontal()
            == 0,
        flags.vertical() == AXIS_MIN || flags.vertical() == AXIS_MAX || flags.vertical() == 0,
        !flags.left && !flags.right ==> flags.horizontal() == 0,
        flags.left && flags.right ==> flags.horizontal() == 0,
        flags.left && !flags.right ==> flags.horizontal() == AXIS_MIN,
        flags.right && !flags.left ==> flags.horizontal() == AXIS_MAX,
        !flags.up && !flags.down ==> flags.vertical() == 0,
        flags.up ==> flags.vertical() == AXIS_MAX,
        flags.down && !flags.up ==> flags.vertical() == AXIS_MIN,
{
}

/// The position of the left stick is a function of the four D-pad flags
/// alone: it is so in a new engine, and every event keeps it so.
pub proof fn lemma_stick_follows_the_dpad(
    mapping: X360Mapping,
    offset_ms: u64,
    engine: X360View,
    event: ButtonEvent,
)
    ensures
        X360Output::initial(mapping, offset_ms).stick_follows_dpad(),
        engine.stick_follows_dpad() ==> engine.on_button(event).0.stick_follows_dpad(),
{
}

/// The gamepad engine. It owns the mapping, the composite state and the
/// four D-pad flags.
pub struct X360Output {
    gamepad: GamepadState,
    mapping: X360Mapping,
    dpad_up: bool,
    dpad_down: bool,
    dpad_left: bool,
    dpad_right: bool,
    offset_ms: u64,
    debug: bool,
}

impl View for X360Output {
    type V = X360View;

    closed spec fn view(&self) -> X360View {
        X360View {
            buttons: self.mapping.buttons@,
            offset_ms: self.offset_ms,
            gamepad: self.gamepad,
            dpad: DpadFlags {
                up: self.dpad_up,
                down: self.dpad_down,
                left: self.dpad_left,
                right: self.dpad_right,
            },
        }
    }
}

impl X360Output {
    /// The engine that `new` makes of a mapping: everything is at rest.
    pub open spec fn initial(mapping: X360Mapping, offset_ms: u64) -> X360View {
        X360View {
            buttons: mapping.buttons@,
            offset_ms,
            gamepad: GamepadState::neutral_spec(),
            dpad: DpadFlags { up: false, down: false, left: false, right: false },
        }
    }

    /// Whether the engine was asked to report what it does.
    pub closed spec fn debug_spec(&self) -> bool {
        self.debug
    }

    /// An engine for `mapping` that delays its pushes by `offset_ms`.
    pub fn new(mapping: X360Mapping, offset_ms: u64, debug: bool) -> (r: Self)
        ensures
            r@ == Self::initial(mapping, offset_ms),
            r.debug_spec() == debug,
    {
        X360Output {
            gamepad: GamepadState::neutral(),
            mapping,
            dpad_up: false,
            dpad_down: false,
            dpad_left: false,
            dpad_right: false,
            offset_ms,
            debug,
        }
    }

    /// What the button `id` drives, if the mapping knows it.
    pub fn entry(&self, id: u8) -> (r: Option<X360ButtonEntry>)
        ensures
            r == self@.entry(id),
    {
        let id_text = decimal_string(id as u64);
        match self.mapping.buttons.get(id_text.as_str()) {
            Some(entry) => Some(*entry),
            None => None,
        }
    }

    /// The composite state as last computed.
    pub fn gamepad(&self) -> (r: GamepadState)
        ensures
            r == self@.gamepad,
    {
        self.gamepad
    }

    /// Whether the engine was asked to report what it does.
    pub fn debug(&self) -> (r: bool)
        ensures
            r == self.debug_spec(),
    {
        self.debug
    }

    /// The bit of a controller button in the button word of the state.
    pub fn resolve_button_flag(name: &X360ButtonName) -> (flag: u16)
        ensures
            flag == button_flag(*name),
    {
        match name {
            X360ButtonName::Start => 0x0010,
            X360ButtonName::Back => 0x0020,
            X360ButtonName::LeftThumb => 0x0040,
            X360ButtonName::RightThumb => 0x0080,
            X360ButtonName::LeftShoulder => 0x0100,
            X360ButtonName::RightShoulder => 0x0200,
            X360ButtonName::Guide => 0x0400,
            X360ButtonName::A => 0x1000,
            X360ButtonName::B => 0x2000,
            X360ButtonName::X => 0x4000,
            X360ButtonName::Y => 0x8000,
        }
    }

    /// Sets or clears the bit of a controller button.
    fn set_button(&mut self, name: &X360ButtonName, pressed: bool)
        ensures
            final(self)@ == old(self)@.apply(X360ButtonEntry::Button { name: *name }, pressed),
            final(self).debug_spec() == old(self).debug_spec(),
    {
        let flag = Self::resolve_button_flag(name);
        if pressed {
            self.gamepad.buttons = self.gamepad.buttons | flag;
        } else {
            self.gamepad.buttons = self.gamepad.buttons & !flag;
        }
    }

    /// Puts the left stick where the D-pad flags say.
    fn update_dpad(&mut self)
        ensures
            final(self)@ == (X360View {
                gamepad: old(self)@.gamepad.with_dpad(old(self)@.dpad),
                ..old(self)@
            }),
            final(self).debug_spec() == old(self).debug_spec(),
    {
        let horizontal: i16 = if self.dpad_left && !self.dpad_right {
            AXIS_MIN
        } else if self.dpad_right && !self.dpad_left {
            AXIS_MAX
        } else {
            0
        };
        let vertical: i16 = if self.dpad_up {
            AXIS_MAX
        } else if self.dpad_down {
            AXIS_MIN
        } else {
            0
        };
        self.gamepad.thumb_lx = horizontal;
        self.gamepad.thumb_ly = vertical;
    }

    /// Pulls a trigger fully or lets it go.
    fn set_trigger(&mut self, trigger: &TriggerName, pressed: bool)
        ensures
            final(self)@ == old(self)@.apply(
                X360ButtonEntry::Trigger { trigger: *trigger },
                pressed,
            ),
            final(self).debug_spec() == old(self).debug_spec(),
    {
        let value: u8 = if pressed {
            TRIGGER_MAX
        } else {
            0
        };
        match trigger {
            TriggerName::Left => {
                self.gamepad.left_trigger = value;
            },
            TriggerName::Right => {
                self.gamepad.right_trigger = value;
            },
        }
    }
}

impl OutputAdapter for X360Output {
    /// Handles `event`. The time of arrival plays no part.
    fn handle_button(&mut self, event: &ButtonEvent, now: u64) -> (calls: Vec<SinkCall>)
        ensures
            final(self)@ == old(self)@.on_button(*event).0,
            calls@ == old(self)@.on_button(*event).1,
            final(self).debug_spec() == old(self).debug_spec(),
    {
        let id_text = decimal_string(event.id as u64);
        let entry = match self.mapping.buttons.get(id_text.as_str()) {
            Some(entry) => *entry,
            None => {
                return Vec::new();
            },
        };
        let mut calls: Vec<SinkCall> = Vec::new();
        if self.offset_ms > 0 {
            calls.push(SinkCall::Delay(self.offset_ms));
        }
        match entry {
            X360ButtonEntry::Trigger { trigger } => {
                self.set_trigger(&trigger, event.pressed);
            },
            X360ButtonEntry::Dpad { direction } => {
                match direction {
                    DpadDirection::Up => {
                        self.dpad_up = event.pressed;
                    },
                    DpadDirection::Down => {
                        self.dpad_down = event.pressed;
                    },
                    DpadDirection::Left => {
                        self.dpad_left = event.pressed;
                    },
                    DpadDirection::Right => {
                        self.dpad_right = event.pressed;
                    },
                }
                self.update_dpad();
            },
            X360ButtonEntry::Button { name } => {
                self.set_button(&name, event.pressed);
            },
        }
        calls.push(SinkCall::Update(self.gamepad));
        calls
    }

    /// Brings the controller to rest and detaches it.
    fn shutdown(&mut self) -> (calls: Vec<SinkCall>)
        ensures
            final(self)@ == old(self)@.on_shutdown().0,
            calls@ == old(self)@.on_shutdown().1,
            final(self).debug_spec() == old(self).debug_spec(),
    {
        self.gamepad = GamepadState::neutral();
        let mut calls: Vec<SinkCall> = Vec::new();
        calls.push(SinkCall::Update(self.gamepad));
        calls.push(SinkCall::Unplug);
        calls
    }
}

} // verus!
