//! The keyboard engine: the schedule of tap releases and the
//! ignore / tap / release-on-ignore policy.

use crate::outputs::keys::{resolve, resolve_key};
use crate::sink::{Key, SinkCall};
use crate::text::{decimal_string, decimal_text, same_text};
use crate::types::{
    names_of, ButtonEvent, KeyboardMapping, OutputAdapter, DEFAULT_TAP_DURATION_MS,
};
use vstd::prelude::*;

verus! {

/// One pending auto-release: the key to release, the logical key name it
/// was scheduled under, and the instant in milliseconds at which it is due.
pub struct PendingRelease {
    pub key: Key,
    pub name: Seq<char>,
    pub deadline: int,
}

/// No two entries carry the same logical key name.
pub open spec fn names_distinct(pending: Seq<PendingRelease>) -> bool {
    forall|i: int, j: int|
        0 <= i < j < pending.len() ==> (#[trigger] pending[i]).name != (#[trigger] pending[j]).name
}

/// The entries that are not for `name`.
pub open spec fn without_name(pending: Seq<PendingRelease>, name: Seq<char>) -> Seq<
    PendingRelease,
> {
    pending.filter(|p: PendingRelease| p.name != name)
}

/// The schedule after `name` is set to release `key` at `now + duration`:
/// an earlier entry for `name` is gone and the new one comes last.
pub open spec fn scheduled(
    pending: Seq<PendingRelease>,
    key: Key,
    name: Seq<char>,
    now: int,
    duration: int,
) -> Seq<PendingRelease> {
    without_name(pending, name).push(PendingRelease { key, name, deadline: now + duration })
}

/// The entries whose deadline has come at `now`.
pub open spec fn due_entries(pending: Seq<PendingRelease>, now: int) -> Seq<PendingRelease> {
    pending.filter(|p: PendingRelease| p.deadline <= now)
}

/// The keys to release at `now`, in the order in which they were scheduled.
pub open spec fn due_keys(pending: Seq<PendingRelease>, now: int) -> Seq<Key> {
    due_entries(pending, now).map_values(|p: PendingRelease| p.key)
}

/// The entries whose deadline lies after `now`.
pub open spec fn not_due(pending: Seq<PendingRelease>, now: int) -> Seq<PendingRelease> {
    pending.filter(|p: PendingRelease| p.deadline > now)
}

/// Dropping entries from a schedule keeps its names distinct.
pub proof fn lemma_filter_keeps_names_distinct(
    pending: Seq<PendingRelease>,
    keep: spec_fn(PendingRelease) -> bool,
)
    requires
        names_distinct(pending),
    ensures
        names_distinct(pending.filter(keep)),
    decreases pending.len(),
{
    reveal(Seq::filter);
    if pending.len() > 0 {
        let front = pending.drop_last();
        let last = pending.last();
        assert(names_distinct(front)) by {
            assert forall|i: int, j: int| 0 <= i < j < front.len() implies (#[trigger] front[i])
                .name != (#[trigger] front[j]).name by {
                assert(front[i] == pending[i]);
                assert(front[j] == pending[j]);
            }
        }
        lemma_filter_keeps_names_distinct(front, keep);
        if keep(last) {
            let kept = front.filter(keep);
            assert(pending.filter(keep) == kept.push(last));
            assert forall|i: int| 0 <= i < kept.len() implies (#[trigger] kept[i]).name
                != last.name by {
                assert(kept.contains(kept[i]));
                front.lemma_filter_contains_rev(keep, kept[i]);
                let k = choose|k: int| 0 <= k < front.len() && front[k] == kept[i];
                assert(pending[k] == kept[i]);
                assert(pending[pending.len() - 1] == last);
            }
        }
    }
}

/// The entries that are for `name`.
pub open spec fn entries_for(pending: Seq<PendingRelease>, name: Seq<char>) -> Seq<
    PendingRelease,
> {
    pending.filter(|p: PendingRelease| p.name == name)
}

/// A filter that no entry passes leaves nothing.
proof fn lemma_filter_none(pending: Seq<PendingRelease>, keep: spec_fn(PendingRelease) -> bool)
    requires
        forall|i: int| 0 <= i < pending.len() ==> !keep(#[trigger] pending[i]),
    ensures
        pending.filter(keep) == Seq::<PendingRelease>::empty(),
    decreases pending.len(),
{
    reveal(Seq::filter);
    if pending.len() > 0 {
        let front = pending.drop_last();
        assert forall|i: int| 0 <= i < front.len() implies !keep(#[trigger] front[i]) by {
            assert(front[i] == pending[i]);
        }
        lemma_filter_none(front, keep);
        assert(!keep(pending[pending.len() - 1]));
    }
}

/// Whatever is dropped from a schedule that was cleared of `name`, no
/// entry for `name` is left in it.
proof fn lemma_cleared_has_none(
    pending: Seq<PendingRelease>,
    name: Seq<char>,
    keep: spec_fn(PendingRelease) -> bool,
)
    ensures
        entries_for(without_name(pending, name).filter(keep), name) == Seq::<
            PendingRelease,
        >::empty(),
{
    let others = without_name(pending, name);
    let left = others.filter(keep);
    assert forall|i: int| 0 <= i < left.len() implies (#[trigger] left[i]).name != name by {
        assert(left.contains(left[i]));
        others.lemma_filter_contains_rev(keep, left[i]);
        let k = choose|k: int| 0 <= k < others.len() && others[k] == left[i];
        pending.lemma_filter_pred(|p: PendingRelease| p.name != name, k);
    }
    lemma_filter_none(left, |p: PendingRelease| p.name == name);
}

/// A key scheduled at `now` for `duration` does not fire before
/// `now + duration`. From that instant on a drain yields it exactly once,
/// and what the drain leaves holds no entry for it, so that a second drain
/// at the same instant yields nothing at all.
pub proof fn lemma_fires_once_at_deadline(
    pending: Seq<PendingRelease>,
    key: Key,
    name: Seq<char>,
    now: int,
    duration: int,
    at: int,
)
    ensures
        ({
            let schedule = scheduled(pending, key, name, now, duration);
            let entry = PendingRelease { key, name, deadline: now + duration };
            &&& at < now + duration ==> entries_for(due_entries(schedule, at), name) == Seq::<
                PendingRelease,
            >::empty()
            &&& at < now + duration ==> entries_for(not_due(schedule, at), name) == seq![entry]
            &&& at >= now + duration ==> entries_for(due_entries(schedule, at), name)
                == seq![entry]
            &&& at >= now + duration ==> entries_for(not_due(schedule, at), name) == Seq::<
                PendingRelease,
            >::empty()
            &&& due_keys(not_due(schedule, at), at) == Seq::<Key>::empty()
        }),
{
    let others = without_name(pending, name);
    let entry = PendingRelease { key, name, deadline: now + duration };
    let schedule = others.push(entry);
    let is_due = |p: PendingRelease| p.deadline <= at;
    let is_later = |p: PendingRelease| p.deadline > at;
    let named = |p: PendingRelease| p.name == name;
    others.lemma_filter_push(entry, is_due);
    others.lemma_filter_push(entry, is_later);
    lemma_cleared_has_none(pending, name, is_due);
    lemma_cleared_has_none(pending, name, is_later);
    others.filter(is_due).lemma_filter_push(entry, named);
    others.filter(is_later).lemma_filter_push(entry, named);
    assert(Seq::<PendingRelease>::empty().push(entry) == seq![entry]);
    let left = not_due(schedule, at);
    assert forall|i: int| 0 <= i < left.len() implies !is_due(#[trigger] left[i]) by {
        schedule.lemma_filter_pred(is_later, i);
    }
    lemma_filter_none(left, is_due);
    assert(Seq::<PendingRelease>::empty().map_values(|p: PendingRelease| p.key) == Seq::<
        Key,
    >::empty());
}

/// A key that is cleared never fires: whenever the schedule is drained
/// afterwards, it yields no entry for the key.
pub proof fn lemma_clear_is_permanent(pending: Seq<PendingRelease>, name: Seq<char>, at: int)
    ensures
        entries_for(without_name(pending, name), name) == Seq::<PendingRelease>::empty(),
        entries_for(due_entries(without_name(pending, name), at), name) == Seq::<
            PendingRelease,
        >::empty(),
{
    lemma_cleared_has_none(pending, name, |p: PendingRelease| p.deadline <= at);
    lemma_cleared_has_none(pending, name, |p: PendingRelease| true);
    let others = without_name(pending, name);
    lemma_filter_keeps_all(others, |p: PendingRelease| true);
}

/// A filter that every entry passes changes nothing.
proof fn lemma_filter_keeps_all(
    pending: Seq<PendingRelease>,
    keep: spec_fn(PendingRelease) -> bool,
)
    requires
        forall|i: int| 0 <= i < pending.len() ==> keep(#[trigger] pending[i]),
    ensures
        pending.filter(keep) == pending,
    decreases pending.len(),
{
    reveal(Seq::filter);
    if pending.len() > 0 {
        let front = pending.drop_last();
        assert forall|i: int| 0 <= i < front.len() implies keep(#[trigger] front[i]) by {
            assert(front[i] == pending[i]);
        }
        lemma_filter_keeps_all(front, keep);
        assert(keep(pending[pending.len() - 1]));
        assert(front.push(pending.last()) == pending);
    }
}

/// Scheduling a key again replaces its deadline: the schedule is the one
/// in which only the second call was made, so only the newest deadline
/// governs when the key fires.
pub proof fn lemma_reschedule_replaces(
    pending: Seq<PendingRelease>,
    name: Seq<char>,
    first_key: Key,
    first_now: int,
    first_duration: int,
    key: Key,
    now: int,
    duration: int,
)
    ensures
        scheduled(
            scheduled(pending, first_key, name, first_now, first_duration),
            key,
            name,
            now,
            duration,
        ) == scheduled(pending, key, name, now, duration),
        entries_for(scheduled(pending, key, name, now, duration), name) == seq![
            PendingRelease { key, name, deadline: now + duration },
        ],
{
    let others = without_name(pending, name);
    let first = PendingRelease { key: first_key, name, deadline: first_now + first_duration };
    let entry = PendingRelease { key, name, deadline: now + duration };
    let unnamed = |p: PendingRelease| p.name != name;
    let named = |p: PendingRelease| p.name == name;
    others.lemma_filter_push(first, unnamed);
    assert(others.filter(unnamed) == others) by {
        lemma_filter_again(pending, unnamed);
    }
    lemma_cleared_has_none(pending, name, |p: PendingRelease| true);
    lemma_filter_keeps_all(others, |p: PendingRelease| true);
    others.lemma_filter_push(entry, named);
    assert(Seq::<PendingRelease>::empty().push(entry) == seq![entry]);
}

/// Filtering twice by one test is filtering once.
proof fn lemma_filter_again(pending: Seq<PendingRelease>, keep: spec_fn(PendingRelease) -> bool)
    ensures
        pending.filter(keep).filter(keep) == pending.filter(keep),
    decreases pending.len(),
{
    reveal(Seq::filter);
    if pending.len() > 0 {
        let front = pending.drop_last();
        lemma_filter_again(front, keep);
        if keep(pending.last()) {
            front.filter(keep).lemma_filter_push(pending.last(), keep);
        }
    }
}

/// A scheduled release as it is stored.
struct Pending {
    key: Key,
    name: String,
    deadline: u128,
}

impl View for Pending {
    type V = PendingRelease;

    closed spec fn view(&self) -> PendingRelease {
        PendingRelease { key: self.key, name: self.name@, deadline: self.deadline as int }
    }
}

/// The registry of scheduled tap releases, with at most one pending
/// deadline for each logical key name.
pub struct TapReleases {
    deadlines: Vec<Pending>,
}

impl View for TapReleases {
    type V = Seq<PendingRelease>;

    closed spec fn view(&self) -> Seq<PendingRelease> {
        self.deadlines@.map_values(|p: Pending| p@)
    }
}

impl TapReleases {
    /// Every registry holds each logical key name at most once.
    #[verifier::type_invariant]
    pub open spec fn well_formed(&self) -> bool {
        names_distinct(self@)
    }

    /// The registry with nothing scheduled.
    pub fn new() -> (r: Self)
        ensures
            r@ == Seq::<PendingRelease>::empty(),
    {
        let r = TapReleases { deadlines: Vec::new() };
        assert(r@ =~= Seq::<PendingRelease>::empty());
        r
    }

    /// The number of pending releases.
    pub fn len(&self) -> (r: usize)
        ensures
            r == self@.len(),
    {
        self.deadlines.len()
    }

    /// The deadline that is pending for `key_name`, if there is one.
    pub fn deadline_of(&self, key_name: &str) -> (r: Option<u128>)
        ensures
            match r {
                Some(d) => exists|i: int|
                    0 <= i < self@.len() && (#[trigger] self@[i]).name == key_name@
                        && self@[i].deadline == d,
                None => forall|i: int|
                    0 <= i < self@.len() ==> (#[trigger] self@[i]).name != key_name@,
            },
    {
        let n = self.deadlines.len();
        let mut i: usize = 0;
        while i < n
            invariant
                i <= n,
                n == self.deadlines@.len(),
                forall|j: int| 0 <= j < i ==> (#[trigger] self@[j]).name != key_name@,
            decreases n - i,
        {
            if same_text(self.deadlines[i].name.as_str(), key_name) {
                assert(self@[i as int].name == key_name@);
                return Some(self.deadlines[i].deadline);
            }
            i += 1;
        }
        None
    }

    /// Moves the entries that are not for `key_name` out of `entries`.
    fn keep_other_names(entries: Vec<Pending>, key_name: &str) -> (kept: Vec<Pending>)
        ensures
            kept@.map_values(|p: Pending| p@) == without_name(
                entries@.map_values(|p: Pending| p@),
                key_name@,
            ),
    {
        let ghost all = entries@.map_values(|p: Pending| p@);
        let ghost keep = |p: PendingRelease| p.name != key_name@;
        let mut kept: Vec<Pending> = Vec::new();
        assert(all.take(0).filter(keep) =~= Seq::<PendingRelease>::empty()) by {
            reveal(Seq::filter);
        }
        for p in it: entries
            invariant
                it.seq() == entries@,
                all == entries@.map_values(|p: Pending| p@),
                keep == (|p: PendingRelease| p.name != key_name@),
                kept@.map_values(|p: Pending| p@) == all.take(it.index() as int).filter(keep),
        {
            proof {
                let i = it.index() as int;
                assert(all.take(i + 1) == all.take(i).push(all[i]));
                all.take(i).lemma_filter_push(all[i], keep);
                assert(all[i] == p@);
            }
            if !same_text(p.name.as_str(), key_name) {
                proof {
                    assert(kept@.push(p).map_values(|p: Pending| p@) == kept@.map_values(
                        |p: Pending| p@,
                    ).push(p@));
                }
                kept.push(p);
            }
        }
        assert(all.take(all.len() as int) == all);
        kept
    }

    /// Records that `key` must be released at `now + duration` under the
    /// logical name `key_name`. An entry that was pending for the name is
    /// replaced.
    pub fn schedule(&mut self, key: Key, key_name: String, now: u64, duration: u64)
        ensures
            final(self)@ == scheduled(old(self)@, key, key_name@, now as int, duration as int),
    {
        proof {
            use_type_invariant(&*self);
        }
        let mut entries: Vec<Pending> = Vec::new();
        std::mem::swap(&mut entries, &mut self.deadlines);
        let mut kept = Self::keep_other_names(entries, key_name.as_str());
        let ghost others = kept@.map_values(|p: Pending| p@);
        let entry = Pending { key, name: key_name, deadline: now as u128 + duration as u128 };
        proof {
            lemma_filter_keeps_names_distinct(old(self)@, |p: PendingRelease| p.name != key_name@);
            assert(kept@.push(entry).map_values(|p: Pending| p@) == others.push(entry@));
            assert forall|i: int| 0 <= i < others.len() implies (#[trigger] others[i]).name
                != key_name@ by {
                old(self)@.lemma_filter_pred(|p: PendingRelease| p.name != key_name@, i);
            }
        }
        kept.push(entry);
        self.deadlines = kept;
    }

    /// Removes the entry that is pending for `key_name`, if there is one.
    pub fn clear(&mut self, key_name: &str)
        ensures
            final(self)@ == without_name(old(self)@, key_name@),
    {
        proof {
            use_type_invariant(&*self);
            lemma_filter_keeps_names_distinct(old(self)@, |p: PendingRelease| p.name != key_name@);
        }
        let mut entries: Vec<Pending> = Vec::new();
        std::mem::swap(&mut entries, &mut self.deadlines);
        let kept = Self::keep_other_names(entries, key_name);
        self.deadlines = kept;
    }

    /// Removes every pending entry.
    pub fn clear_all(&mut self)
        ensures
            final(self)@ == Seq::<PendingRelease>::empty(),
    {
        self.deadlines = Vec::new();
        assert(self@ =~= Seq::<PendingRelease>::empty());
    }

    /// Returns the keys whose deadline is at or before `now`, in the order
    /// in which they were scheduled, and removes their entries.
    pub fn take_due_keys(&mut self, now: u64) -> (due: Vec<Key>)
        ensures
            due@ == due_keys(old(self)@, now as int),
            final(self)@ == not_due(old(self)@, now as int),
    {
        proof {
            use_type_invariant(&*self);
            lemma_filter_keeps_names_distinct(old(self)@, |p: PendingRelease| p.deadline > now);
        }
        let mut entries: Vec<Pending> = Vec::new();
        std::mem::swap(&mut entries, &mut self.deadlines);
        let ghost all = entries@.map_values(|p: Pending| p@);
        let ghost is_due = |p: PendingRelease| p.deadline <= now;
        let ghost is_later = |p: PendingRelease| p.deadline > now;
        let mut due: Vec<Key> = Vec::new();
        let mut kept: Vec<Pending> = Vec::new();
        assert(all.take(0).filter(is_due) =~= Seq::<PendingRelease>::empty()) by {
            reveal(Seq::filter);
        }
        assert(all.take(0).filter(is_later) =~= Seq::<PendingRelease>::empty()) by {
            reveal(Seq::filter);
        }
        for p in it: entries
            invariant
                it.seq() == entries@,
                all == entries@.map_values(|p: Pending| p@),
                is_due == (|p: PendingRelease| p.deadline <= now),
                is_later == (|p: PendingRelease| p.deadline > now),
                due@ == all.take(it.index() as int).filter(is_due).map_values(
                    |p: PendingRelease| p.key,
                ),
                kept@.map_values(|p: Pending| p@) == all.take(it.index() as int).filter(is_later),
        {
            proof {
                let i = it.index() as int;
                assert(all.take(i + 1) == all.take(i).push(all[i]));
                all.take(i).lemma_filter_push(all[i], is_due);
                all.take(i).lemma_filter_push(all[i], is_later);
                assert(all[i] == p@);
            }
            if p.deadline <= now as u128 {
                proof {
                    let before = all.take(it.index() as int).filter(is_due);
                    assert(before.push(p@).map_values(|p: PendingRelease| p.key)
                        == before.map_values(|p: PendingRelease| p.key).push(p@.key));
                }
                due.push(p.key);
            } else {
                proof {
                    assert(kept@.push(p).map_values(|p: Pending| p@) == kept@.map_values(
                        |p: Pending| p@,
                    ).push(p@));
                }
                kept.push(p);
            }
        }
        assert(all.take(all.len() as int) == all);
        self.deadlines = kept;
        due
    }
}

/// The names of `names` in order, each at its first occurrence only.
pub open spec fn distinct_names(names: Seq<Seq<char>>) -> Seq<Seq<char>>
    decreases names.len(),
{
    if names.len() == 0 {
        Seq::empty()
    } else {
        let front = distinct_names(names.drop_last());
        if front.contains(names.last()) {
            front
        } else {
            front.push(names.last())
        }
    }
}

/// Each name with the physical key that it resolves to.
pub open spec fn resolved_each(names: Seq<Seq<char>>) -> Seq<(Seq<char>, Option<Key>)> {
    names.map_values(|name: Seq<char>| (name, resolve(name)))
}

/// Whether `name` is one of the names of `forced`.
pub open spec fn is_forced(forced: Seq<(Seq<char>, Option<Key>)>, name: Seq<char>) -> bool {
    exists|i: int| 0 <= i < forced.len() && (#[trigger] forced[i]).0 == name
}

/// A key-up for each name of `forced` that has a physical key, in order.
pub open spec fn key_ups(forced: Seq<(Seq<char>, Option<Key>)>) -> Seq<SinkCall> {
    forced.filter_map(
        |e: (Seq<char>, Option<Key>)|
            match e.1 {
                Some(key) => Some(SinkCall::KeyUp(key)),
                None => None,
            },
    )
}

/// The entries whose name is none of those of `forced`.
pub open spec fn without_forced(
    pending: Seq<PendingRelease>,
    forced: Seq<(Seq<char>, Option<Key>)>,
) -> Seq<PendingRelease> {
    pending.filter(|p: PendingRelease| !is_forced(forced, p.name))
}

/// `call`, after a delay of `offset_ms` where that is not zero.
pub open spec fn delayed(offset_ms: u64, call: SinkCall) -> Seq<SinkCall> {
    if offset_ms > 0 {
        seq![SinkCall::Delay(offset_ms), call]
    } else {
        seq![call]
    }
}

/// The keyboard engine as a mathematical value: its configuration, which
/// never changes, then the ignore flag and the schedule.
pub struct KeyboardView {
    /// From button-id text to logical key name.
    pub buttons: Map<Seq<char>, Seq<char>>,
    pub tap_keys: Set<Seq<char>>,
    /// The release-on-ignore names, each once, with their physical keys.
    pub release_on_ignore: Seq<(Seq<char>, Option<Key>)>,
    pub ignore_key: Option<Seq<char>>,
    pub tap_duration: u64,
    pub offset_ms: u64,
    pub ignore: bool,
    pub pending: Seq<PendingRelease>,
}

impl KeyboardView {
    /// Whether the two engines are configured alike.
    pub open spec fn same_configuration(self, other: KeyboardView) -> bool {
        &&& self.buttons == other.buttons
        &&& self.tap_keys == other.tap_keys
        &&& self.release_on_ignore == other.release_on_ignore
        &&& self.ignore_key == other.ignore_key
        &&& self.tap_duration == other.tap_duration
        &&& self.offset_ms == other.offset_ms
    }

    /// The logical key name of the button `id`, if the mapping has one.
    pub open spec fn key_name(self, id: u8) -> Option<Seq<char>> {
        let id_text = decimal_text(id as nat);
        if self.buttons.contains_key(id_text) {
            Some(self.buttons[id_text])
        } else {
            None
        }
    }

    /// The engine and the sink calls after a press of the key `name`,
    /// whose physical key is `key`, at `now`.
    ///
    /// With the modifier active, the release-on-ignore keys are forced up
    /// and cleared from the schedule first. Then the ignore key activates
    /// the modifier. A tap key goes down at once and stays down while the
    /// modifier is off; under the modifier it goes down after the
    /// injection offset and is scheduled for release. Any other key goes
    /// down after the injection offset.
    pub open spec fn press(self, name: Seq<char>, key: Key, now: int) -> (
        KeyboardView,
        Seq<SinkCall>,
    ) {
        let forced = if self.ignore {
            key_ups(self.release_on_ignore)
        } else {
            Seq::empty()
        };
        let cleared = if self.ignore {
            without_forced(self.pending, self.release_on_ignore)
        } else {
            self.pending
        };
        let ignore = self.ignore || self.ignore_key == Some(name);
        let tap = self.tap_keys.contains(name);
        let down = if tap && !ignore {
            seq![SinkCall::KeyDown(key)]
        } else {
            delayed(self.offset_ms, SinkCall::KeyDown(key))
        };
        let pending = if tap && ignore {
            scheduled(cleared, key, name, now, self.tap_duration as int)
        } else {
            cleared
        };
        (KeyboardView { ignore, pending, ..self }, forced + down)
    }

    /// The engine and the sink calls after a release of the key `name`,
    /// whose physical key is `key`: the ignore key switches the modifier
    /// off, a pending auto-release of the key is dropped, and the key goes
    /// up after the injection offset.
    pub open spec fn release(self, name: Seq<char>, key: Key) -> (KeyboardView, Seq<SinkCall>) {
        let ignore = self.ignore && self.ignore_key != Some(name);
        let pending = without_name(self.pending, name);
        (KeyboardView { ignore, pending, ..self }, delayed(self.offset_ms, SinkCall::KeyUp(key)))
    }

    /// The engine and the sink calls after `event` arrives at `now`. A
    /// button that the mapping does not know, or whose key name resolves
    /// to no physical key, changes nothing and calls nothing.
    pub open spec fn on_button(self, event: ButtonEvent, now: int) -> (
        KeyboardView,
        Seq<SinkCall>,
    ) {
        match self.key_name(event.id) {
            Some(name) => match resolve(name) {
                Some(key) => if event.pressed {
                    self.press(name, key, now)
                } else {
                    self.release(name, key)
                },
                None => (self, Seq::empty()),
            },
            None => (self, Seq::empty()),
        }
    }

    /// The engine and the sink calls after a tick at `now`: every entry
    /// that is due leaves the schedule, and its key goes up.
    pub open spec fn on_tick(self, now: int) -> (KeyboardView, Seq<SinkCall>) {
        (
            KeyboardView { pending: not_due(self.pending, now), ..self },
            due_keys(self.pending, now).map_values(|key: Key| SinkCall::KeyUp(key)),
        )
    }
}

/// Filtering by one test and then by another is filtering by both.
proof fn lemma_filter_both(
    pending: Seq<PendingRelease>,
    first: spec_fn(PendingRelease) -> bool,
    second: spec_fn(PendingRelease) -> bool,
    both: spec_fn(PendingRelease) -> bool,
)
    requires
        forall|p: PendingRelease| #[trigger] both(p) == (first(p) && second(p)),
    ensures
        pending.filter(first).filter(second) == pending.filter(both),
    decreases pending.len(),
{
    reveal(Seq::filter);
    if pending.len() > 0 {
        let front = pending.drop_last();
        lemma_filter_both(front, first, second, both);
        if first(pending.last()) {
            front.filter(first).lemma_filter_push(pending.last(), second);
        }
    }
}

/// The key-down calls among `calls`.
pub open spec fn key_downs(calls: Seq<SinkCall>) -> Seq<SinkCall> {
    calls.filter(|call: SinkCall| call is KeyDown)
}

/// Forced releases hold no key-down.
proof fn lemma_key_ups_hold_no_key_down(forced: Seq<(Seq<char>, Option<Key>)>)
    ensures
        key_downs(key_ups(forced)) == Seq::<SinkCall>::empty(),
    decreases forced.len(),
{
    reveal(Seq::filter);
    if forced.len() > 0 {
        let front = forced.drop_last();
        lemma_key_ups_hold_no_key_down(front);
        match forced.last().1 {
            Some(key) => {
                let call = SinkCall::KeyUp(key);
                assert(key_ups(forced) == key_ups(front).push(call));
                key_ups(front).lemma_filter_push(call, |call: SinkCall| call is KeyDown);
            },
            None => {},
        }
    }
}

/// Under the modifier, the call for a key holds just that call as key-down.
proof fn lemma_delayed_key_down(offset_ms: u64, key: Key)
    ensures
        key_downs(delayed(offset_ms, SinkCall::KeyDown(key))) == seq![SinkCall::KeyDown(key)],
        key_downs(seq![SinkCall::KeyDown(key)]) == seq![SinkCall::KeyDown(key)],
{
    let is_down = |call: SinkCall| call is KeyDown;
    let down = SinkCall::KeyDown(key);
    let none = Seq::<SinkCall>::empty();
    assert(none.filter(is_down) == none) by {
        reveal(Seq::filter);
    }
    none.lemma_filter_push(down, is_down);
    assert(none.push(down) == seq![down]);
    if offset_ms > 0 {
        let wait = SinkCall::Delay(offset_ms);
        none.lemma_filter_push(wait, is_down);
        none.push(wait).lemma_filter_push(down, is_down);
        assert(none.push(wait).push(down) == seq![wait, down]);
    }
}

/// Only the ignore key switches the modifier: an event for any other key,
/// and a tick, leave the ignore flag as it is. No event changes the
/// configuration.
pub proof fn lemma_only_the_ignore_key_switches_the_modifier(
    engine: KeyboardView,
    name: Seq<char>,
    key: Key,
    now: int,
)
    ensures
        engine.ignore_key != Some(name) ==> engine.press(name, key, now).0.ignore == engine.ignore,
        engine.ignore_key != Some(name) ==> engine.release(name, key).0.ignore == engine.ignore,
        engine.ignore_key == Some(name) ==> engine.press(name, key, now).0.ignore,
        engine.ignore_key == Some(name) ==> !engine.release(name, key).0.ignore,
        engine.on_tick(now).0.ignore == engine.ignore,
        engine.press(name, key, now).0.same_configuration(engine),
        engine.release(name, key).0.same_configuration(engine),
        engine.on_tick(now).0.same_configuration(engine),
{
}

/// A press that arrives while the modifier is active first forces up
/// every release-on-ignore key that has a physical key, then sends the
/// key-down of the pressed key. Afterwards the modifier is still active,
/// and of the release-on-ignore names only the pressed key itself can have
/// a pending release, namely where the press has just scheduled one.
pub proof fn lemma_press_under_ignore_forces_releases(
    engine: KeyboardView,
    name: Seq<char>,
    key: Key,
    now: int,
)
    requires
        engine.ignore,
    ensures
        ({
            let (after, calls) = engine.press(name, key, now);
            let forced = key_ups(engine.release_on_ignore);
            &&& calls.take(forced.len() as int) == forced
            &&& calls.skip(forced.len() as int) == delayed(
                engine.offset_ms,
                SinkCall::KeyDown(key),
            )
            &&& after.ignore
            &&& forall|i: int|
                0 <= i < after.pending.len() && is_forced(
                    engine.release_on_ignore,
                    (#[trigger] after.pending[i]).name,
                ) ==> after.pending[i].name == name
        }),
{
    let (after, calls) = engine.press(name, key, now);
    let forced = key_ups(engine.release_on_ignore);
    let down = delayed(engine.offset_ms, SinkCall::KeyDown(key));
    let none_forced = |p: PendingRelease| !is_forced(engine.release_on_ignore, p.name);
    assert(calls == forced + down);
    assert((forced + down).take(forced.len() as int) == forced);
    assert((forced + down).skip(forced.len() as int) == down);
    let cleared = without_forced(engine.pending, engine.release_on_ignore);
    assert forall|i: int| 0 <= i < cleared.len() implies none_forced(#[trigger] cleared[i]) by {
        engine.pending.lemma_filter_pred(none_forced, i);
    }
    assert forall|i: int|
        0 <= i < after.pending.len() && is_forced(
            engine.release_on_ignore,
            (#[trigger] after.pending[i]).name,
        ) implies after.pending[i].name == name by {
        if engine.tap_keys.contains(name) {
            let others = without_name(cleared, name);
            if i < others.len() {
                assert(others.contains(others[i]));
                cleared.lemma_filter_contains_rev(|p: PendingRelease| p.name != name, others[i]);
                let k = choose|k: int| 0 <= k < cleared.len() && cleared[k] == others[i];
                assert(none_forced(cleared[k]));
            }
        } else {
            assert(none_forced(cleared[i]));
        }
    }
}

/// A tap key that is pressed while the modifier is off, and that is not
/// the ignore key itself, goes down exactly once and without delay.
/// Nothing is scheduled: the engine is as it was.
pub proof fn lemma_tap_press_without_ignore(
    engine: KeyboardView,
    name: Seq<char>,
    key: Key,
    now: int,
)
    requires
        engine.tap_keys.contains(name),
        !engine.ignore,
        engine.ignore_key != Some(name),
    ensures
        engine.press(name, key, now).1 == seq![SinkCall::KeyDown(key)],
        engine.press(name, key, now).0 == engine,
{
    assert(Seq::<SinkCall>::empty() + seq![SinkCall::KeyDown(key)] == seq![
        SinkCall::KeyDown(key),
    ]);
}

/// A tap key that is pressed under the modifier goes down exactly once,
/// as the last call, and has exactly one release pending afterwards: the
/// one at `now` plus the tap duration.
pub proof fn lemma_tap_press_under_ignore(
    engine: KeyboardView,
    name: Seq<char>,
    key: Key,
    now: int,
)
    requires
        engine.tap_keys.contains(name),
        engine.ignore || engine.ignore_key == Some(name),
    ensures
        ({
            let (after, calls) = engine.press(name, key, now);
            &&& key_downs(calls) == seq![SinkCall::KeyDown(key)]
            &&& calls.last() == SinkCall::KeyDown(key)
            &&& after.ignore
            &&& entries_for(after.pending, name) == seq![
                PendingRelease { key, name, deadline: now + engine.tap_duration },
            ]
        }),
{
    let (after, calls) = engine.press(name, key, now);
    let forced = if engine.ignore {
        key_ups(engine.release_on_ignore)
    } else {
        Seq::empty()
    };
    let cleared = if engine.ignore {
        without_forced(engine.pending, engine.release_on_ignore)
    } else {
        engine.pending
    };
    let down = delayed(engine.offset_ms, SinkCall::KeyDown(key));
    lemma_key_ups_hold_no_key_down(engine.release_on_ignore);
    lemma_delayed_key_down(engine.offset_ms, key);
    assert(key_downs(forced) == Seq::<SinkCall>::empty()) by {
        reveal(Seq::filter);
    }
    Seq::filter_distributes_over_add(forced, down, |call: SinkCall| call is KeyDown);
    assert(Seq::<SinkCall>::empty() + seq![SinkCall::KeyDown(key)] == seq![
        SinkCall::KeyDown(key),
    ]);
    lemma_reschedule_replaces(cleared, name, key, now, 0, key, now, engine.tap_duration as int);
}

/// A tap key that is pressed under the modifier is released by the first
/// tick at or after its deadline and by none before: until then its entry
/// stays in the schedule, and the tick that releases it takes the entry
/// out, so that no later tick releases the key again.
pub proof fn lemma_tap_is_released_at_its_deadline(
    engine: KeyboardView,
    name: Seq<char>,
    key: Key,
    now: int,
    at: int,
)
    requires
        engine.tap_keys.contains(name),
        engine.ignore || engine.ignore_key == Some(name),
    ensures
        ({
            let pressed = engine.press(name, key, now).0;
            let ticked = pressed.on_tick(at).0;
            let entry = PendingRelease { key, name, deadline: now + engine.tap_duration };
            let none = Seq::<PendingRelease>::empty();
            &&& entries_for(due_entries(pressed.pending, at), name) == if at >= entry.deadline {
                seq![entry]
            } else {
                none
            }
            &&& entries_for(ticked.pending, name) == if at >= entry.deadline {
                none
            } else {
                seq![entry]
            }
            &&& pressed.on_tick(at).1 == due_keys(pressed.pending, at).map_values(
                |key: Key| SinkCall::KeyUp(key),
            )
            &&& ticked.on_tick(at).1 == Seq::<SinkCall>::empty()
        }),
{
    let cleared = if engine.ignore {
        without_forced(engine.pending, engine.release_on_ignore)
    } else {
        engine.pending
    };
    lemma_fires_once_at_deadline(cleared, key, name, now, engine.tap_duration as int, at);
    assert(Seq::<Key>::empty().map_values(|key: Key| SinkCall::KeyUp(key)) == Seq::<
        SinkCall,
    >::empty());
}

/// A copy of a list of names.
fn clone_names(list: &Vec<String>) -> (r: Vec<String>)
    ensures
        names_of(r@) == names_of(list@),
{
    let mut r: Vec<String> = Vec::new();
    let n = list.len();
    let mut i: usize = 0;
    while i < n
        invariant
            i <= n,
            n == list@.len(),
            names_of(r@) == names_of(list@).take(i as int),
        decreases n - i,
    {
        let name = list[i].clone();
        assert(names_of(r@.push(name)) == names_of(r@).push(name@));
        assert(names_of(list@).take(i + 1) == names_of(list@).take(i as int).push(
            list@[i as int]@,
        ));
        r.push(name);
        i += 1;
    }
    assert(names_of(list@).take(n as int) == names_of(list@));
    r
}

/// Whether `name` is one of the names of `list`.
fn contains_name(list: &Vec<String>, name: &str) -> (r: bool)
    ensures
        r == names_of(list@).contains(name@),
{
    let n = list.len();
    let mut i: usize = 0;
    while i < n
        invariant
            i <= n,
            n == list@.len(),
            forall|j: int| 0 <= j < i ==> names_of(list@)[j] != name@,
        decreases n - i,
    {
        if same_text(list[i].as_str(), name) {
            assert(names_of(list@)[i as int] == name@);
            return true;
        }
        i += 1;
    }
    false
}

/// The spec-level form of a stored list of release-on-ignore keys.
spec fn forced_view(forced: Seq<(String, Option<Key>)>) -> Seq<(Seq<char>, Option<Key>)> {
    forced.map_values(|e: (String, Option<Key>)| (e.0@, e.1))
}

/// The names of `list`, each at its first occurrence only and with the
/// physical key that it resolves to.
fn resolve_each_once(list: &Vec<String>) -> (r: Vec<(String, Option<Key>)>)
    ensures
        forced_view(r@) == resolved_each(distinct_names(names_of(list@))),
{
    let mut r: Vec<(String, Option<Key>)> = Vec::new();
    let ghost names = names_of(list@);
    let n = list.len();
    let mut i: usize = 0;
    assert(names.take(0) == Seq::<Seq<char>>::empty());
    assert(forced_view(r@) == resolved_each(distinct_names(names.take(0))));
    while i < n
        invariant
            i <= n,
            n == list@.len(),
            names == names_of(list@),
            forced_view(r@) == resolved_each(distinct_names(names.take(i as int))),
        decreases n - i,
    {
        let ghost seen = distinct_names(names.take(i as int));
        let name = &list[i];
        let mut known = false;
        let m = r.len();
        let mut j: usize = 0;
        assert(forced_view(r@).len() == resolved_each(seen).len());
        while j < m
            invariant
                j <= m,
                m == r@.len(),
                m == seen.len(),
                forced_view(r@) == resolved_each(seen),
                name@ == names[i as int],
                known <==> exists|k: int| 0 <= k < j && seen[k] == name@,
            decreases m - j,
        {
            assert(forced_view(r@)[j as int].0 == r@[j as int].0@);
            assert(resolved_each(seen)[j as int].0 == seen[j as int]);
            if same_text(r[j].0.as_str(), name.as_str()) {
                known = true;
            }
            j += 1;
        }
        proof {
            assert(names.take(i + 1).drop_last() == names.take(i as int));
            assert(names.take(i + 1).last() == name@);
            assert(known == seen.contains(name@));
        }
        if !known {
            let key = resolve_key(name.as_str());
            let entry = (name.clone(), key);
            proof {
                assert(forced_view(r@.push(entry)) == forced_view(r@).push((name@, key)));
                assert(resolved_each(seen.push(name@)) == resolved_each(seen).push(
                    (name@, resolve(name@)),
                ));
            }
            r.push(entry);
        }
        i += 1;
    }
    assert(names.take(n as int) == names);
    r
}

/// The keyboard engine. It owns the mapping and the schedule and keeps
/// the ignore flag.
pub struct KeyboardOutput {
    mapping: KeyboardMapping,
    tap_keys: Vec<String>,
    release_on_ignore: Vec<(String, Option<Key>)>,
    ignore_key: Option<String>,
    tap_duration: u64,
    offset_ms: u64,
    debug: bool,
    ignore: bool,
    pub tap_releases: TapReleases,
}

impl View for KeyboardOutput {
    type V = KeyboardView;

    closed spec fn view(&self) -> KeyboardView {
        KeyboardView {
            buttons: self.mapping@.buttons,
            tap_keys: names_of(self.tap_keys@).to_set(),
            release_on_ignore: forced_view(self.release_on_ignore@),
            ignore_key: match self.ignore_key {
                Some(name) => Some(name@),
                None => None,
            },
            tap_duration: self.tap_duration,
            offset_ms: self.offset_ms,
            ignore: self.ignore,
            pending: self.tap_releases@,
        }
    }
}

impl KeyboardOutput {
    /// The engine that `new` makes of a mapping: the modifier is off and
    /// nothing is scheduled.
    pub open spec fn initial(mapping: KeyboardMapping, offset_ms: u64) -> KeyboardView {
        KeyboardView {
            buttons: mapping@.buttons,
            tap_keys: match mapping.special {
                Some(special) => special.tap_names().to_set(),
                None => Set::empty(),
            },
            release_on_ignore: match mapping.special {
                Some(special) => resolved_each(distinct_names(special.release_names())),
                None => Seq::empty(),
            },
            ignore_key: match mapping.special {
                Some(special) => special.ignore_name(),
                None => None,
            },
            tap_duration: match mapping.special {
                Some(special) => special.tap_duration(),
                None => DEFAULT_TAP_DURATION_MS,
            },
            offset_ms,
            ignore: false,
            pending: Seq::empty(),
        }
    }

    /// Whether the engine was asked to report what it does.
    pub closed spec fn debug_spec(&self) -> bool {
        self.debug
    }

    /// An engine for `mapping` that delays its calls by `offset_ms`.
    pub fn new(mapping: KeyboardMapping, offset_ms: u64, debug: bool) -> (r: Self)
        ensures
            r@ == Self::initial(mapping, offset_ms),
            r.debug_spec() == debug,
    {
        let mut tap_keys: Vec<String> = Vec::new();
        let mut release_on_ignore: Vec<(String, Option<Key>)> = Vec::new();
        let mut ignore_key: Option<String> = None;
        let mut tap_duration: u64 = DEFAULT_TAP_DURATION_MS;
        match &mapping.special {
            Some(special) => {
                match &special.tap_keys {
                    Some(list) => {
                        tap_keys = clone_names(list);
                    },
                    None => {},
                }
                match &special.release_on_ignore {
                    Some(list) => {
                        release_on_ignore = resolve_each_once(list);
                    },
                    None => {},
                }
                match &special.ignore_key {
                    Some(name) => {
                        ignore_key = Some(name.clone());
                    },
                    None => {},
                }
                match special.tap_duration_ms {
                    Some(ms) => {
                        tap_duration = ms;
                    },
                    None => {},
                }
            },
            None => {},
        }
        proof {
            assert(names_of(Seq::<String>::empty()) == Seq::<Seq<char>>::empty());
            assert(Seq::<Seq<char>>::empty().to_set() == Set::<Seq<char>>::empty());
            assert(forced_view(Seq::<(String, Option<Key>)>::empty()) == Seq::<
                (Seq<char>, Option<Key>),
            >::empty());
            assert(distinct_names(Seq::<Seq<char>>::empty()) == Seq::<Seq<char>>::empty());
            assert(resolved_each(Seq::<Seq<char>>::empty()) == Seq::<
                (Seq<char>, Option<Key>),
            >::empty());
        }
        KeyboardOutput {
            mapping,
            tap_keys,
            release_on_ignore,
            ignore_key,
            tap_duration,
            offset_ms,
            debug,
            ignore: false,
            tap_releases: TapReleases::new(),
        }
    }

    /// The logical key name of the button `id`, if the mapping has one.
    pub fn key_name(&self, id: u8) -> (r: Option<&str>)
        ensures
            match r {
                Some(name) => self@.key_name(id) == Some(name@),
                None => self@.key_name(id) is None,
            },
    {
        let id_text = decimal_string(id as u64);
        match self.mapping.buttons.get(id_text.as_str()) {
            Some(entry) => Some(entry.key.as_str()),
            None => None,
        }
    }

    /// Whether the ignore modifier is active.
    pub fn ignore_active(&self) -> (r: bool)
        ensures
            r == self@.ignore,
    {
        self.ignore
    }

    /// Whether the engine was asked to report what it does.
    pub fn debug(&self) -> (r: bool)
        ensures
            r == self.debug_spec(),
    {
        self.debug
    }

    /// Appends `call` to `calls`, after a delay where an offset is set.
    fn push_delayed(&self, calls: &mut Vec<SinkCall>, call: SinkCall)
        ensures
            final(calls)@ == old(calls)@ + delayed(self@.offset_ms, call),
    {
        if self.offset_ms > 0 {
            calls.push(SinkCall::Delay(self.offset_ms));
        }
        calls.push(call);
    }

    /// Handles a press of the key `name`, whose physical key is `key`, at
    /// `now` milliseconds.
    pub fn press_key(&mut self, name: &str, key: Key, now: u64) -> (calls: Vec<SinkCall>)
        ensures
            final(self)@ == old(self)@.press(name@, key, now as int).0,
            calls@ == old(self)@.press(name@, key, now as int).1,
            final(self).debug_spec() == old(self).debug_spec(),
    {
        let mut calls: Vec<SinkCall> = Vec::new();
        let ghost forced = self@.release_on_ignore;
        let ghost before = self@.pending;
        if self.ignore {
            let n = self.release_on_ignore.len();
            let mut i: usize = 0;
            proof {
                assert(forced.take(0) == Seq::<(Seq<char>, Option<Key>)>::empty());
                assert(without_forced(before, forced.take(0)) == before) by {
                    assert forall|k: int| 0 <= k < before.len() implies !is_forced(
                        forced.take(0),
                        (#[trigger] before[k]).name,
                    ) by {}
                    lemma_filter_keeps_all(
                        before,
                        |p: PendingRelease| !is_forced(forced.take(0), p.name),
                    );
                }
            }
            while i < n
                invariant
                    i <= n,
                    n == forced.len(),
                    forced == forced_view(self.release_on_ignore@),
                    self@ == (KeyboardView { pending: self@.pending, ..old(self)@ }),
                    self.debug_spec() == old(self).debug_spec(),
                    self@.pending == without_forced(before, forced.take(i as int)),
                    calls@ == key_ups(forced.take(i as int)),
                decreases n - i,
            {
                let ghost key_up = |e: (Seq<char>, Option<Key>)|
                    match e.1 {
                        Some(key) => Some(SinkCall::KeyUp(key)),
                        None => None,
                    };
                proof {
                    forced.lemma_filter_map_take_succ(key_up, i as int);
                    let done = forced.take(i as int);
                    let next = forced.take(i + 1);
                    let this = forced[i as int].0;
                    assert(next == done.push(forced[i as int]));
                    assert forall|p: PendingRelease|
                        (#[trigger] is_forced(next, p.name)) == (is_forced(done, p.name) || p.name
                            == this) by {
                        if is_forced(next, p.name) {
                            let k = choose|k: int|
                                0 <= k < next.len() && (#[trigger] next[k]).0 == p.name;
                            if k < i {
                                assert(done[k].0 == p.name);
                            }
                        }
                        if is_forced(done, p.name) {
                            let k = choose|k: int|
                                0 <= k < done.len() && (#[trigger] done[k]).0 == p.name;
                            assert(next[k].0 == p.name);
                        }
                        if p.name == this {
                            assert(next[i as int].0 == p.name);
                        }
                    }
                    lemma_filter_both(
                        before,
                        |p: PendingRelease| !is_forced(done, p.name),
                        |p: PendingRelease| p.name != this,
                        |p: PendingRelease| !is_forced(next, p.name),
                    );
                }
                match self.release_on_ignore[i].1 {
                    Some(k) => {
                        calls.push(SinkCall::KeyUp(k));
                    },
                    None => {},
                }
                self.tap_releases.clear(self.release_on_ignore[i].0.as_str());
                i += 1;
            }
            assert(forced.take(n as int) == forced);
        }
        match &self.ignore_key {
            Some(ignore_key) => {
                if same_text(name, ignore_key.as_str()) {
                    self.ignore = true;
                }
            },
            None => {},
        }
        let tap = contains_name(&self.tap_keys, name);
        if tap && !self.ignore {
            calls.push(SinkCall::KeyDown(key));
        } else {
            self.push_delayed(&mut calls, SinkCall::KeyDown(key));
            if tap {
                self.tap_releases.schedule(key, name.to_owned(), now, self.tap_duration);
            }
        }
        calls
    }

    /// Handles a release of the key `name`, whose physical key is `key`.
    pub fn release_key(&mut self, name: &str, key: Key) -> (calls: Vec<SinkCall>)
        ensures
            final(self)@ == old(self)@.release(name@, key).0,
            calls@ == old(self)@.release(name@, key).1,
            final(self).debug_spec() == old(self).debug_spec(),
    {
        match &self.ignore_key {
            Some(ignore_key) => {
                if same_text(name, ignore_key.as_str()) {
                    self.ignore = false;
                }
            },
            None => {},
        }
        self.tap_releases.clear(name);
        let mut calls: Vec<SinkCall> = Vec::new();
        self.push_delayed(&mut calls, SinkCall::KeyUp(key));
        calls
    }

    /// Releases the keys whose tap deadline has come at `now`
    /// milliseconds. To be called on every tick.
    pub fn process_tap_releases(&mut self, now: u64) -> (calls: Vec<SinkCall>)
        ensures
            final(self)@ == old(self)@.on_tick(now as int).0,
            calls@ == old(self)@.on_tick(now as int).1,
            final(self).debug_spec() == old(self).debug_spec(),
    {
        let due = self.tap_releases.take_due_keys(now);
        let mut calls: Vec<SinkCall> = Vec::new();
        let n = due.len();
        let mut i: usize = 0;
        while i < n
            invariant
                i <= n,
                n == due@.len(),
                calls@ == due@.take(i as int).map_values(|key: Key| SinkCall::KeyUp(key)),
            decreases n - i,
        {
            assert(due@.take(i + 1).map_values(|key: Key| SinkCall::KeyUp(key)) == due@.take(
                i as int,
            ).map_values(|key: Key| SinkCall::KeyUp(key)).push(SinkCall::KeyUp(due@[i as int])));
            calls.push(SinkCall::KeyUp(due[i]));
            i += 1;
        }
        assert(due@.take(n as int) == due@);
        calls
    }
}

impl OutputAdapter for KeyboardOutput {
    /// Handles `event`, which arrives at `now` milliseconds.
    fn handle_button(&mut self, event: &ButtonEvent, now: u64) -> (calls: Vec<SinkCall>)
        ensures
            final(self)@ == old(self)@.on_button(*event, now as int).0,
            calls@ == old(self)@.on_button(*event, now as int).1,
            final(self).debug_spec() == old(self).debug_spec(),
    {
        let id_text = decimal_string(event.id as u64);
        let name = match self.mapping.buttons.get(id_text.as_str()) {
            Some(entry) => entry.key.clone(),
            None => {
                return Vec::new();
            },
        };
        match resolve_key(name.as_str()) {
            Some(key) => {
                if event.pressed {
                    self.press_key(name.as_str(), key, now)
                } else {
                    self.release_key(name.as_str(), key)
                }
            },
            None => Vec::new(),
        }
    }

    /// The keyboard needs nothing at the end of a run.
    fn shutdown(&mut self) -> (calls: Vec<SinkCall>)
        ensures
            final(self)@ == old(self)@,
            calls@ == Seq::<SinkCall>::empty(),
            final(self).debug_spec() == old(self).debug_spec(),
    {
        Vec::new()
    }
}

} // verus!
