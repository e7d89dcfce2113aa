//! The fixed scratch layout: sixteen buttons on letter keys, with `a` as the
//! ignore key and the two scratch keys `f` and `r` as tap keys.
//!
//! Under this layout the schedule needs no more than one slot for each
//! scratch key.

use crate::sink::{Key, SinkCall};
use vstd::prelude::*;

verus! {

/// The key of scratch-down.
pub open spec fn down_key() -> Key {
    Key::Layout('f')
}

/// The key of scratch-up.
pub open spec fn up_key() -> Key {
    Key::Layout('r')
}

/// The ignore key of the layout.
pub open spec fn ignore_key() -> Key {
    Key::Layout('a')
}

/// The time in milliseconds after which a scratch key is released.
pub const SCRATCH_TAP_DURATION_MS: u64 = 100;

/// The two slots as a mathematical value: the deadline of scratch-down and
/// that of scratch-up, in milliseconds, where one is pending.
pub struct ScratchSlots {
    pub down: Option<int>,
    pub up: Option<int>,
}

impl ScratchSlots {
    /// The slots after `key` is scheduled at `now` for `duration`. A key
    /// that is no scratch key is not scheduled.
    pub open spec fn schedule(self, key: Key, now: int, duration: int) -> ScratchSlots {
        if key == down_key() {
            ScratchSlots { down: Some(now + duration), ..self }
        } else if key == up_key() {
            ScratchSlots { up: Some(now + duration), ..self }
        } else {
            self
        }
    }

    /// The slots after `key` is cleared.
    pub open spec fn clear(self, key: Key) -> ScratchSlots {
        if key == down_key() {
            ScratchSlots { down: None, ..self }
        } else if key == up_key() {
            ScratchSlots { up: None, ..self }
        } else {
            self
        }
    }

    /// Whether scratch-down is due at `now`.
    pub open spec fn down_due(self, now: int) -> bool {
        self.down is Some && self.down.unwrap() <= now
    }

    /// Whether scratch-up is due at `now`.
    pub open spec fn up_due(self, now: int) -> bool {
        self.up is Some && self.up.unwrap() <= now
    }

    /// The keys to release at `now`: scratch-down before scratch-up.
    pub open spec fn due_keys(self, now: int) -> Seq<Key> {
        (if self.down_due(now) {
            seq![down_key()]
        } else {
            Seq::empty()
        }) + (if self.up_due(now) {
            seq![up_key()]
        } else {
            Seq::empty()
        })
    }

    /// The slots after the due keys are taken at `now`.
    pub open spec fn not_due(self, now: int) -> ScratchSlots {
        ScratchSlots {
            down: if self.down_due(now) {
                None
            } else {
                self.down
            },
            up: if self.up_due(now) {
                None
            } else {
                self.up
            },
        }
    }

    /// The slots with no deadline pending.
    pub open spec fn empty() -> ScratchSlots {
        ScratchSlots { down: None, up: None }
    }
}

/// The scheduled releases of the two scratch keys.
#[derive(Debug, Clone, Copy)]
pub struct ScratchTapReleases {
    down_deadline: Option<u128>,
    up_deadline: Option<u128>,
}

impl View for ScratchTapReleases {
    type V = ScratchSlots;

    closed spec fn view(&self) -> ScratchSlots {
        ScratchSlots {
            down: match self.down_deadline {
                Some(deadline) => Some(deadline as int),
                None => None,
            },
            up: match self.up_deadline {
                Some(deadline) => Some(deadline as int),
                None => None,
            },
        }
    }
}

impl Default for ScratchTapReleases {
    fn default() -> (r: Self)
        ensures
            r@ == ScratchSlots::empty(),
    {
        ScratchTapReleases { down_deadline: None, up_deadline: None }
    }
}

impl ScratchTapReleases {
    /// The slots with no deadline pending.
    pub fn new() -> (r: Self)
        ensures
            r@ == ScratchSlots::empty(),
    {
        ScratchTapReleases { down_deadline: None, up_deadline: None }
    }

    /// Records that the scratch key `key` must be released at
    /// `now + duration`, in place of a deadline that was pending for it.
    pub fn schedule(&mut self, key: Key, now: u64, duration: u64)
        ensures
            final(self)@ == old(self)@.schedule(key, now as int, duration as int),
    {
        let deadline: u128 = now as u128 + duration as u128;
        match key {
            Key::Layout('f') => {
                self.down_deadline = Some(deadline);
            },
            Key::Layout('r') => {
                self.up_deadline = Some(deadline);
            },
            _ => {},
        }
    }

    /// Drops the deadline that is pending for `key`.
    pub fn clear(&mut self, key: Key)
        ensures
            final(self)@ == old(self)@.clear(key),
    {
        match key {
            Key::Layout('f') => {
                self.down_deadline = None;
            },
            Key::Layout('r') => {
                self.up_deadline = None;
            },
            _ => {},
        }
    }

    /// Returns the scratch keys whose deadline is at or before `now`, and
    /// drops their deadlines.
    pub fn take_due_keys(&mut self, now: u64) -> (due: Vec<Key>)
        ensures
            due@ == old(self)@.due_keys(now as int),
            final(self)@ == old(self)@.not_due(now as int),
    {
        let mut due: Vec<Key> = Vec::new();
        match self.down_deadline {
            Some(deadline) => {
                if deadline <= now as u128 {
                    self.down_deadline = None;
                    due.push(Key::Layout('f'));
                }
            },
            None => {},
        }
        match self.up_deadline {
            Some(deadline) => {
                if deadline <= now as u128 {
                    self.up_deadline = None;
                    due.push(Key::Layout('r'));
                }
            },
            None => {},
        }
        due
    }

    /// Drops both deadlines.
    pub fn clear_all(&mut self)
        ensures
            final(self)@ == ScratchSlots::empty(),
    {
        self.down_deadline = None;
        self.up_deadline = None;
    }
}

/// The key of a button under the fixed layout.
pub open spec fn layout_key(id: u8) -> Option<Key> {
    if id == 0 {
        Some(Key::Layout('a'))
    } else if id == 1 {
        Some(Key::Layout('s'))
    } else if id == 2 {
        Some(Key::Layout('d'))
    } else if id == 3 {
        Some(Key::Layout('w'))
    } else if id == 4 {
        Some(Key::Layout('r'))
    } else if id == 5 {
        Some(Key::Layout('t'))
    } else if id == 6 {
        Some(Key::Layout('f'))
    } else if id == 7 {
        Some(Key::Layout('g'))
    } else if id == 8 {
        Some(Key::Layout('b'))
    } else if id == 9 {
        Some(Key::Layout('n'))
    } else if id == 10 {
        Some(Key::Layout('m'))
    } else if id == 11 {
        Some(Key::Layout('j'))
    } else if id == 12 {
        Some(Key::Layout('u'))
    } else if id == 13 {
        Some(Key::Layout('k'))
    } else if id == 14 {
        Some(Key::Layout('p'))
    } else if id == 15 {
        Some(Key::Layout('l'))
    } else {
        None
    }
}

/// The key of a button under the fixed layout.
pub fn button_key(id: u8) -> (r: Option<Key>)
    ensures
        r == layout_key(id),
{
    if id == 0 {
        Some(Key::Layout('a'))
    } else if id == 1 {
        Some(Key::Layout('s'))
    } else if id == 2 {
        Some(Key::Layout('d'))
    } else if id == 3 {
        Some(Key::Layout('w'))
    } else if id == 4 {
        Some(Key::Layout('r'))
    } else if id == 5 {
        Some(Key::Layout('t'))
    } else if id == 6 {
        Some(Key::Layout('f'))
    } else if id == 7 {
        Some(Key::Layout('g'))
    } else if id == 8 {
        Some(Key::Layout('b'))
    } else if id == 9 {
        Some(Key::Layout('n'))
    } else if id == 10 {
        Some(Key::Layout('m'))
    } else if id == 11 {
        Some(Key::Layout('j'))
    } else if id == 12 {
        Some(Key::Layout('u'))
    } else if id == 13 {
        Some(Key::Layout('k'))
    } else if id == 14 {
        Some(Key::Layout('p'))
    } else if id == 15 {
        Some(Key::Layout('l'))
    } else {
        None
    }
}

/// The engine of the fixed layout as a mathematical value.
pub struct ScratchView {
    pub ignore: bool,
    pub slots: ScratchSlots,
}

impl ScratchView {
    /// Whether `key` is one of the two scratch keys.
    pub open spec fn is_scratch(key: Key) -> bool {
        key == down_key() || key == up_key()
    }

    /// The engine and the sink calls after a press of `key` at `now`. With
    /// the modifier active both scratch keys are forced up and their
    /// deadlines dropped first. A scratch key pressed under the modifier
    /// is scheduled for release.
    pub open spec fn press(self, key: Key, now: int) -> (ScratchView, Seq<SinkCall>) {
        let forced = if self.ignore {
            seq![SinkCall::KeyUp(up_key()), SinkCall::KeyUp(down_key())]
        } else {
            Seq::empty()
        };
        let cleared = if self.ignore {
            ScratchSlots::empty()
        } else {
            self.slots
        };
        let ignore = self.ignore || key == ignore_key();
        let slots = if Self::is_scratch(key) && ignore {
            cleared.schedule(key, now, SCRATCH_TAP_DURATION_MS as int)
        } else {
            cleared
        };
        (ScratchView { ignore, slots }, forced.push(SinkCall::KeyDown(key)))
    }

    /// The engine and the sink calls after a release of `key`.
    pub open spec fn release(self, key: Key) -> (ScratchView, Seq<SinkCall>) {
        (
            ScratchView {
                ignore: self.ignore && key != ignore_key(),
                slots: self.slots.clear(key),
            },
            seq![SinkCall::KeyUp(key)],
        )
    }

    /// The engine and the sink calls after a tick at `now`.
    pub open spec fn on_tick(self, now: int) -> (ScratchView, Seq<SinkCall>) {
        (
            ScratchView { slots: self.slots.not_due(now), ..self },
            self.slots.due_keys(now).map_values(|key: Key| SinkCall::KeyUp(key)),
        )
    }
}

/// The engine of the fixed layout: the ignore flag and the two slots.
#[derive(Debug, Clone, Copy)]
pub struct ScratchEngine {
    ignore: bool,
    releases: ScratchTapReleases,
}

impl View for ScratchEngine {
    type V = ScratchView;

    closed spec fn view(&self) -> ScratchView {
        ScratchView { ignore: self.ignore, slots: self.releases@ }
    }
}

impl ScratchEngine {
    /// The engine with the modifier off and no deadline pending.
    pub fn new() -> (r: Self)
        ensures
            r@ == (ScratchView { ignore: false, slots: ScratchSlots::empty() }),
    {
        ScratchEngine { ignore: false, releases: ScratchTapReleases::new() }
    }

    /// Handles a press or a release of `key` at `now` milliseconds.
    pub fn handle_key(&mut self, key: Key, pressed: bool, now: u64) -> (calls: Vec<SinkCall>)
        ensures
            final(self)@ == (if pressed {
                old(self)@.press(key, now as int).0
            } else {
                old(self)@.release(key).0
            }),
            calls@ == (if pressed {
                old(self)@.press(key, now as int).1
            } else {
                old(self)@.release(key).1
            }),
    {
        let mut calls: Vec<SinkCall> = Vec::new();
        let scratch = key == Key::Layout('f') || key == Key::Layout('r');
        if pressed {
            if self.ignore {
                calls.push(SinkCall::KeyUp(Key::Layout('r')));
                calls.push(SinkCall::KeyUp(Key::Layout('f')));
                self.releases.clear_all();
            }
            if key == Key::Layout('a') {
                self.ignore = true;
            }
            calls.push(SinkCall::KeyDown(key));
            if scratch && self.ignore {
                self.releases.schedule(key, now, SCRATCH_TAP_DURATION_MS);
            }
        } else {
            if key == Key::Layout('a') {
                self.ignore = false;
            }
            self.releases.clear(key);
            calls.push(SinkCall::KeyUp(key));
        }
        calls
    }

    /// Releases the scratch keys whose deadline has come at `now`.
    pub fn release_due_scratch_keys(&mut self, now: u64) -> (calls: Vec<SinkCall>)
        ensures
            final(self)@ == old(self)@.on_tick(now as int).0,
            calls@ == old(self)@.on_tick(now as int).1,
    {
        let due = self.releases.take_due_keys(now);
        let mut calls: Vec<SinkCall> = Vec::new();
        let n = due.len();
        let mut i: usize = 0;
        while i < n
            invariant
                i <= n,
                n == due@.len(),
                calls@ == due@.take(i as int).map_values(|key: Key| SinkCall::KeyUp(key)),
            decreases n - i,
        {
            assert(due@.take(i + 1).map_values(|key: Key| SinkCall::KeyUp(key)) == due@.take(
                i as int,
            ).map_values(|key: Key| SinkCall::KeyUp(key)).push(SinkCall::KeyUp(due@[i as int])));
            calls.push(SinkCall::KeyUp(due[i]));
            i += 1;
        }
        assert(due@.take(n as int) == due@);
        calls
    }
}

} // verus!
