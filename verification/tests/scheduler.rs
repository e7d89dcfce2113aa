use ps2iidx_controller::outputs::keyboard::TapReleases;
use ps2iidx_controller::scratch::ScratchTapReleases;
use ps2iidx_controller::sink::Key;

#[test]
fn scratch_tap_releases_after_deadline() {
    let mut releases = ScratchTapReleases::default();
    let start: u64 = 5_000;

    releases.schedule(Key::Layout('f'), start, 100);
    assert!(releases.take_due_keys(start + 99).is_empty());

    let due = releases.take_due_keys(start + 100);
    assert_eq!(due, vec![Key::Layout('f')]);
}

#[test]
fn main_clear_prevents_late_release() {
    let mut releases = ScratchTapReleases::default();
    let start: u64 = 5_000;

    releases.schedule(Key::Layout('r'), start, 100);
    releases.clear(Key::Layout('r'));
    assert!(releases.take_due_keys(start + 100).is_empty());
}

#[test]
fn tap_releases_after_deadline() {
    let mut releases = TapReleases::new();
    let start: u64 = 5_000;

    releases.schedule(Key::Layout('f'), "F15".to_string(), start, 100);
    assert!(releases.take_due_keys(start + 99).is_empty());

    let due = releases.take_due_keys(start + 100);
    assert_eq!(due, vec![Key::Layout('f')]);
}

#[test]
fn keyboard_clear_prevents_late_release() {
    let mut releases = TapReleases::new();
    let start: u64 = 5_000;

    releases.schedule(Key::Layout('r'), "F13".to_string(), start, 100);
    releases.clear("F13");
    assert!(releases.take_due_keys(start + 100).is_empty());
}

#[test]
fn clear_all_removes_everything() {
    let mut releases = TapReleases::new();
    let start: u64 = 5_000;

    releases.schedule(Key::Layout('f'), "F15".to_string(), start, 100);
    releases.schedule(Key::Layout('r'), "F13".to_string(), start, 100);
    releases.clear_all();
    assert!(releases.take_due_keys(start + 200).is_empty());
}

#[test]
fn drain_is_idempotent() {
    let mut releases = TapReleases::new();
    releases.schedule(Key::Layout('f'), "f".to_string(), 1_000, 100);

    assert_eq!(releases.take_due_keys(1_100), vec![Key::Layout('f')]);
    assert!(releases.take_due_keys(1_100).is_empty());
    assert!(releases.take_due_keys(9_999).is_empty());
    assert_eq!(releases.len(), 0);
}

#[test]
fn key_fires_at_any_instant_from_its_deadline_on() {
    let mut releases = TapReleases::new();
    releases.schedule(Key::Tab, "TAB".to_string(), 20, 13);

    assert!(releases.take_due_keys(0).is_empty());
    assert!(releases.take_due_keys(32).is_empty());
    assert_eq!(releases.take_due_keys(500), vec![Key::Tab]);
}

#[test]
fn reschedule_replaces_the_deadline() {
    let mut releases = TapReleases::new();
    releases.schedule(Key::Layout('f'), "f".to_string(), 1_000, 100);
    releases.schedule(Key::Layout('f'), "f".to_string(), 1_050, 100);

    assert_eq!(releases.len(), 1);
    assert_eq!(releases.deadline_of("f"), Some(1_150));
    assert!(releases.take_due_keys(1_100).is_empty());
    assert!(releases.take_due_keys(1_149).is_empty());
    assert_eq!(releases.take_due_keys(1_150), vec![Key::Layout('f')]);
    assert!(releases.take_due_keys(1_200).is_empty());
}

#[test]
fn reschedule_can_move_the_deadline_earlier() {
    let mut releases = TapReleases::new();
    releases.schedule(Key::Layout('f'), "f".to_string(), 1_000, 500);
    releases.schedule(Key::Layout('f'), "f".to_string(), 1_010, 10);

    assert_eq!(releases.take_due_keys(1_020), vec![Key::Layout('f')]);
    assert!(releases.take_due_keys(1_500).is_empty());
}

#[test]
fn clear_removes_only_the_named_key() {
    let mut releases = TapReleases::new();
    releases.schedule(Key::Layout('f'), "f".to_string(), 0, 10);
    releases.schedule(Key::Layout('r'), "r".to_string(), 0, 10);
    releases.clear("f");

    assert_eq!(releases.deadline_of("f"), None);
    assert_eq!(releases.deadline_of("r"), Some(10));
    assert_eq!(releases.take_due_keys(10), vec![Key::Layout('r')]);
}

#[test]
fn clear_of_an_unknown_key_changes_nothing() {
    let mut releases = TapReleases::new();
    releases.schedule(Key::Layout('f'), "f".to_string(), 0, 10);
    releases.clear("F");

    assert_eq!(releases.len(), 1);
}

#[test]
fn due_keys_come_in_the_order_of_scheduling() {
    let mut releases = TapReleases::new();
    releases.schedule(Key::Layout('r'), "r".to_string(), 0, 30);
    releases.schedule(Key::Layout('f'), "f".to_string(), 0, 10);
    releases.schedule(Key::Layout('g'), "g".to_string(), 0, 50);
    releases.schedule(Key::Layout('h'), "h".to_string(), 0, 20);

    assert_eq!(
        releases.take_due_keys(30),
        vec![Key::Layout('r'), Key::Layout('f'), Key::Layout('h')]
    );
    assert_eq!(releases.len(), 1);
    assert_eq!(releases.deadline_of("g"), Some(50));
}

#[test]
fn names_tell_keys_apart_not_physical_keys() {
    let mut releases = TapReleases::new();
    releases.schedule(Key::Escape, "ESC".to_string(), 0, 10);
    releases.schedule(Key::Escape, "ESCAPE".to_string(), 0, 20);

    assert_eq!(releases.len(), 2);
    assert_eq!(releases.take_due_keys(10), vec![Key::Escape]);
    assert_eq!(releases.take_due_keys(20), vec![Key::Escape]);
}

#[test]
fn deadline_does_not_wrap_at_the_end_of_the_clock() {
    let mut releases = TapReleases::new();
    releases.schedule(Key::Layout('f'), "f".to_string(), u64::MAX, 1);

    assert_eq!(releases.deadline_of("f"), Some(u64::MAX as u128 + 1));
    assert!(releases.take_due_keys(u64::MAX).is_empty());
    assert_eq!(releases.len(), 1);
}

#[test]
fn zero_duration_fires_at_once() {
    let mut releases = TapReleases::new();
    releases.schedule(Key::Layout('f'), "f".to_string(), 7, 0);

    assert_eq!(releases.take_due_keys(7), vec![Key::Layout('f')]);
}

#[test]
fn scratch_slots_ignore_other_keys() {
    let mut releases = ScratchTapReleases::new();
    releases.schedule(Key::Layout('a'), 0, 100);

    assert!(releases.take_due_keys(1_000).is_empty());
}

#[test]
fn scratch_slots_release_down_before_up() {
    let mut releases = ScratchTapReleases::new();
    releases.schedule(Key::Layout('r'), 0, 100);
    releases.schedule(Key::Layout('f'), 50, 100);

    assert_eq!(releases.take_due_keys(100), vec![Key::Layout('r')]);
    releases.schedule(Key::Layout('r'), 100, 50);
    assert_eq!(
        releases.take_due_keys(150),
        vec![Key::Layout('f'), Key::Layout('r')]
    );
    assert!(releases.take_due_keys(150).is_empty());
}

#[test]
fn scratch_clear_all_drops_both() {
    let mut releases = ScratchTapReleases::new();
    releases.schedule(Key::Layout('r'), 0, 100);
    releases.schedule(Key::Layout('f'), 0, 100);
    releases.clear_all();

    assert!(releases.take_due_keys(200).is_empty());
}

#[test]
fn scratch_reschedule_replaces_the_deadline() {
    let mut releases = ScratchTapReleases::new();
    releases.schedule(Key::Layout('f'), 0, 100);
    releases.schedule(Key::Layout('f'), 60, 100);

    assert!(releases.take_due_keys(100).is_empty());
    assert_eq!(releases.take_due_keys(160), vec![Key::Layout('f')]);
}
