//! The data model: button events and the mapping configuration.

use crate::sink::SinkCall;
use crate::text::same_text;
use vstd::prelude::*;

verus! {

/// One transition of a physical button.
#[derive(Debug, Clone, Copy, PartialEq, Eq, Structural)]
pub struct ButtonEvent {
    pub id: u8,
    pub pressed: bool,
}

/// The kind of sink that a mapping is for.
#[derive(Debug, Clone, Copy, PartialEq, Eq, Structural)]
pub enum OutputType {
    Keyboard,
    X360,
}

/// A table from button-id text to entries. An id occurs at most once in
/// its view, and inserting under an id that is present replaces the entry.
#[derive(Debug, Clone)]
pub struct ButtonTable<T> {
    entries: Vec<(String, T)>,
}

impl<T> View for ButtonTable<T> {
    type V = Map<Seq<char>, T>;

    closed spec fn view(&self) -> Map<Seq<char>, T> {
        Map::new(
            |id: Seq<char>| Self::has_id(self.entries@, id),
            |id: Seq<char>| self.entries@[Self::position(self.entries@, id)].1,
        )
    }
}

impl<T> ButtonTable<T> {
    /// `i` is the first place in `entries` that holds `id`.
    spec fn is_first(entries: Seq<(String, T)>, id: Seq<char>, i: int) -> bool {
        &&& 0 <= i < entries.len()
        &&& entries[i].0@ == id
        &&& forall|j: int| 0 <= j < i ==> (#[trigger] entries[j]).0@ != id
    }

    spec fn has_id(entries: Seq<(String, T)>, id: Seq<char>) -> bool {
        exists|i: int| Self::is_first(entries, id, i)
    }

    spec fn position(entries: Seq<(String, T)>, id: Seq<char>) -> int {
        choose|i: int| Self::is_first(entries, id, i)
    }

    proof fn lemma_position(entries: Seq<(String, T)>, id: Seq<char>, i: int)
        requires
            Self::is_first(entries, id, i),
        ensures
            Self::has_id(entries, id),
            Self::position(entries, id) == i,
    {
        let p = Self::position(entries, id);
        assert(Self::is_first(entries, id, p));
        if p < i {
            assert(entries[p].0@ != id);
        }
        if i < p {
            assert(entries[i].0@ != id);
        }
    }

    /// The table without entries.
    pub fn new() -> (r: Self)
        ensures
            r@ == Map::<Seq<char>, T>::empty(),
    {
        let r = ButtonTable { entries: Vec::new() };
        assert(r@ =~= Map::<Seq<char>, T>::empty());
        r
    }

    /// The index of the first entry for `id`, if there is one.
    fn find(&self, id: &str) -> (r: Option<usize>)
        ensures
            match r {
                Some(i) => Self::is_first(self.entries@, id@, i as int),
                None => forall|j: int|
                    0 <= j < self.entries@.len() ==> (#[trigger] self.entries@[j]).0@ != id@,
            },
    {
        let n = self.entries.len();
        let mut i: usize = 0;
        while i < n
            invariant
                i <= n,
                n == self.entries@.len(),
                forall|j: int| 0 <= j < i ==> (#[trigger] self.entries@[j]).0@ != id@,
            decreases n - i,
        {
            if same_text(self.entries[i].0.as_str(), id) {
                return Some(i);
            }
            i += 1;
        }
        None
    }

    /// The entry for `id`, if there is one.
    pub fn get(&self, id: &str) -> (r: Option<&T>)
        ensures
            match r {
                Some(entry) => self@.contains_key(id@) && *entry == self@[id@],
                None => !self@.contains_key(id@),
            },
    {
        match self.find(id) {
            Some(i) => {
                proof {
                    Self::lemma_position(self.entries@, id@, i as int);
                }
                Some(&self.entries[i].1)
            },
            None => None,
        }
    }

    /// Whether the table has an entry for `id`.
    pub fn contains_key(&self, id: &str) -> (r: bool)
        ensures
            r == self@.contains_key(id@),
    {
        self.get(id).is_some()
    }

    /// Puts `entry` under `id`, in place of the entry that was there.
    pub fn insert(&mut self, id: String, entry: T)
        ensures
            final(self)@ == old(self)@.insert(id@, entry),
    {
        let ghost before = self.entries@;
        match self.find(id.as_str()) {
            Some(i) => {
                self.entries.set(i, (id, entry));
                proof {
                    let after = self.entries@;
                    Self::lemma_position(after, id@, i as int);
                    assert forall|k: Seq<char>, j: int|
                        Self::is_first(after, k, j) <==> Self::is_first(before, k, j) by {
                        if Self::is_first(after, k, j) {
                            assert forall|m: int| 0 <= m < j implies (#[trigger] before[m]).0@
                                != k by {
                                assert(after[m].0@ == before[m].0@);
                            }
                        }
                        if Self::is_first(before, k, j) {
                            assert forall|m: int| 0 <= m < j implies (#[trigger] after[m]).0@
                                != k by {
                                assert(after[m].0@ == before[m].0@);
                            }
                        }
                    }
                    assert forall|k: Seq<char>| Self::has_id(after, k) implies Self::has_id(
                        before,
                        k,
                    ) && Self::position(after, k) == Self::position(before, k) by {
                        let j = Self::position(after, k);
                        assert(Self::is_first(before, k, j));
                        Self::lemma_position(before, k, j);
                    }
                    assert forall|k: Seq<char>| Self::has_id(before, k) implies Self::has_id(
                        after,
                        k,
                    ) by {
                        let j = Self::position(before, k);
                        assert(Self::is_first(after, k, j));
                    }
                }
            },
            None => {
                self.entries.push((id, entry));
                proof {
                    let after = self.entries@;
                    let last = after.len() - 1;
                    assert(Self::is_first(after, id@, last));
                    Self::lemma_position(after, id@, last);
                    assert forall|k: Seq<char>|
                        Self::has_id(after, k) && k != id@ implies Self::has_id(before, k)
                        && Self::position(after, k) == Self::position(before, k) by {
                        let j = Self::position(after, k);
                        assert(Self::is_first(after, k, j));
                        assert forall|m: int| 0 <= m < j implies (#[trigger] before[m]).0@ != k by {
                            assert(after[m].0@ == before[m].0@);
                        }
                        assert(Self::is_first(before, k, j));
                        Self::lemma_position(before, k, j);
                    }
                    assert forall|k: Seq<char>| Self::has_id(before, k) implies Self::has_id(
                        after,
                        k,
                    ) by {
                        let j = Self::position(before, k);
                        assert(Self::is_first(before, k, j));
                        assert forall|m: int| 0 <= m < j implies (#[trigger] after[m]).0@ != k by {
                            assert(after[m].0@ == before[m].0@);
                        }
                        assert(Self::is_first(after, k, j));
                    }
                }
            },
        }
        assert(self@ =~= old(self)@.insert(id@, entry));
    }
}

/// The logical key that a button of a keyboard mapping stands for.
#[derive(Debug, Clone, PartialEq, Eq)]
pub struct KeyboardButtonEntry {
    pub key: String,
}

/// The policy keys of a keyboard mapping. A part that is absent counts as
/// empty; an absent tap duration counts as the default.
#[derive(Debug, Clone, PartialEq, Eq, Default)]
pub struct KeyboardSpecialConfig {
    pub ignore_key: Option<String>,
    pub tap_keys: Option<Vec<String>>,
    pub tap_duration_ms: Option<u64>,
    pub release_on_ignore: Option<Vec<String>>,
}

/// The views of a list of names.
pub open spec fn names_of(list: Seq<String>) -> Seq<Seq<char>> {
    list.map_values(|name: String| name@)
}

/// The tap duration in milliseconds of a mapping that gives none.
pub const DEFAULT_TAP_DURATION_MS: u64 = 13;

impl KeyboardSpecialConfig {
    /// The key whose press and release switch the ignore modifier.
    pub open spec fn ignore_name(&self) -> Option<Seq<char>> {
        text_of(self.ignore_key)
    }

    /// The names of the tap keys, as listed.
    pub open spec fn tap_names(&self) -> Seq<Seq<char>> {
        match self.tap_keys {
            Some(list) => names_of(list@),
            None => Seq::empty(),
        }
    }

    /// The names of the keys to release when the modifier is active, as
    /// listed.
    pub open spec fn release_names(&self) -> Seq<Seq<char>> {
        match self.release_on_ignore {
            Some(list) => names_of(list@),
            None => Seq::empty(),
        }
    }

    /// The time in milliseconds after which a tap key is released.
    pub open spec fn tap_duration(&self) -> u64 {
        match self.tap_duration_ms {
            Some(ms) => ms,
            None => DEFAULT_TAP_DURATION_MS,
        }
    }
}

/// The text of an optional string.
pub open spec fn text_of(value: Option<String>) -> Option<Seq<char>> {
    match value {
        Some(text) => Some(text@),
        None => None,
    }
}

/// The texts of an optional list of strings.
pub open spec fn texts_of(value: Option<Vec<String>>) -> Option<Seq<Seq<char>>> {
    match value {
        Some(list) => Some(names_of(list@)),
        None => None,
    }
}

/// The policy keys of a keyboard mapping as a mathematical value.
pub struct SpecialView {
    pub ignore_key: Option<Seq<char>>,
    pub tap_keys: Option<Seq<Seq<char>>>,
    pub tap_duration_ms: Option<u64>,
    pub release_on_ignore: Option<Seq<Seq<char>>>,
}

impl View for KeyboardSpecialConfig {
    type V = SpecialView;

    open spec fn view(&self) -> SpecialView {
        SpecialView {
            ignore_key: text_of(self.ignore_key),
            tap_keys: texts_of(self.tap_keys),
            tap_duration_ms: self.tap_duration_ms,
            release_on_ignore: texts_of(self.release_on_ignore),
        }
    }
}

/// A keyboard mapping: each button with its logical key, and the policy
/// keys where the mapping has any.
#[derive(Debug, Clone)]
pub struct KeyboardMapping {
    pub name: Option<String>,
    pub output: OutputType,
    pub buttons: ButtonTable<KeyboardButtonEntry>,
    pub special: Option<KeyboardSpecialConfig>,
}

/// A keyboard mapping as a mathematical value: its buttons are a map from
/// button-id text to logical key name.
pub struct KeyboardMappingView {
    pub name: Option<Seq<char>>,
    pub output: OutputType,
    pub buttons: Map<Seq<char>, Seq<char>>,
    pub special: Option<SpecialView>,
}

impl View for KeyboardMapping {
    type V = KeyboardMappingView;

    open spec fn view(&self) -> KeyboardMappingView {
        KeyboardMappingView {
            name: text_of(self.name),
            output: self.output,
            buttons: self.buttons@.map_values(|entry: KeyboardButtonEntry| entry.key@),
            special: match self.special {
                Some(special) => Some(special@),
                None => None,
            },
        }
    }
}

/// A button of the controller.
#[derive(Debug, Clone, Copy, PartialEq, Eq, Structural)]
pub enum X360ButtonName {
    Start,
    Back,
    LeftThumb,
    RightThumb,
    LeftShoulder,
    RightShoulder,
    Guide,
    A,
    B,
    X,
    Y,
}

/// A direction of the D-pad.
#[derive(Debug, Clone, Copy, PartialEq, Eq, Structural)]
pub enum DpadDirection {
    Up,
    Down,
    Left,
    Right,
}

/// One of the two analog triggers.
#[derive(Debug, Clone, Copy, PartialEq, Eq, Structural)]
pub enum TriggerName {
    Left,
    Right,
}

/// What a button of a gamepad mapping drives.
#[derive(Debug, Clone, Copy, PartialEq, Eq, Structural)]
pub enum X360ButtonEntry {
    Button { name: X360ButtonName },
    Dpad { direction: DpadDirection },
    Trigger { trigger: TriggerName },
}

/// A gamepad mapping: each button with what it drives.
#[derive(Debug, Clone)]
pub struct X360Mapping {
    pub name: Option<String>,
    pub output: OutputType,
    pub buttons: ButtonTable<X360ButtonEntry>,
}

/// A gamepad mapping as a mathematical value.
pub struct X360MappingView {
    pub name: Option<Seq<char>>,
    pub output: OutputType,
    pub buttons: Map<Seq<char>, X360ButtonEntry>,
}

impl View for X360Mapping {
    type V = X360MappingView;

    open spec fn view(&self) -> X360MappingView {
        X360MappingView { name: text_of(self.name), output: self.output, buttons: self.buttons@ }
    }
}

/// A loaded mapping, of either kind.
#[derive(Debug, Clone)]
pub enum MappingConfig {
    Keyboard(KeyboardMapping),
    X360(X360Mapping),
}

/// A loaded mapping as a mathematical value.
pub enum MappingView {
    Keyboard(KeyboardMappingView),
    X360(X360MappingView),
}

impl View for MappingConfig {
    type V = MappingView;

    open spec fn view(&self) -> MappingView {
        match self {
            MappingConfig::Keyboard(mapping) => MappingView::Keyboard(mapping@),
            MappingConfig::X360(mapping) => MappingView::X360(mapping@),
        }
    }
}

impl MappingConfig {
    /// The display name as text, where the mapping has one.
    pub open spec fn name_text(&self) -> Option<Seq<char>> {
        match self {
            MappingConfig::Keyboard(mapping) => text_of(mapping.name),
            MappingConfig::X360(mapping) => text_of(mapping.name),
        }
    }

    /// The output kind that the mapping records.
    pub open spec fn output_kind(&self) -> OutputType {
        match self {
            MappingConfig::Keyboard(m) => m.output,
            MappingConfig::X360(m) => m.output,
        }
    }

    /// The display name of the mapping, where it has one.
    pub fn name(&self) -> (r: Option<&str>)
        ensures
            match r {
                Some(n) => self.name_text() == Some(n@),
                None => self.name_text() is None,
            },
    {
        match self {
            MappingConfig::Keyboard(m) => match &m.name {
                Some(n) => Some(n.as_str()),
                None => None,
            },
            MappingConfig::X360(m) => match &m.name {
                Some(n) => Some(n.as_str()),
                None => None,
            },
        }
    }

    /// The output kind that the mapping records.
    pub fn output_type(&self) -> (r: &OutputType)
        ensures
            *r == self.output_kind(),
    {
        match self {
            MappingConfig::Keyboard(m) => &m.output,
            MappingConfig::X360(m) => &m.output,
        }
    }
}

/// An engine. It turns one button event into the calls to make on its
/// sink, and keeps whatever state that takes.
pub trait OutputAdapter {
    /// The calls that `event`, arriving at `now` milliseconds, asks for.
    fn handle_button(&mut self, event: &ButtonEvent, now: u64) -> Vec<SinkCall>;

    /// The calls that bring the sink to rest at the end of a run.
    fn shutdown(&mut self) -> Vec<SinkCall>;
}

} // verus!
