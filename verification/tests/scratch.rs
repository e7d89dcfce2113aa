use ps2iidx_controller::scratch::{button_key, ScratchEngine};
use ps2iidx_controller::sink::{Key, SinkCall};

const A: Key = Key::Layout('a');
const S: Key = Key::Layout('s');
const F: Key = Key::Layout('f');
const R: Key = Key::Layout('r');

#[test]
fn fixed_layout_has_sixteen_buttons() {
    let letters = [
        'a', 's', 'd', 'w', 'r', 't', 'f', 'g', 'b', 'n', 'm', 'j', 'u', 'k', 'p', 'l',
    ];
    for (id, letter) in letters.iter().enumerate() {
        assert_eq!(button_key(id as u8), Some(Key::Layout(*letter)));
    }
    assert_eq!(button_key(16), None);
    assert_eq!(button_key(255), None);
}

#[test]
fn scratch_key_without_ignore_is_held() {
    let mut engine = ScratchEngine::new();

    assert_eq!(engine.handle_key(F, true, 0), vec![SinkCall::KeyDown(F)]);
    assert!(engine.release_due_scratch_keys(10_000).is_empty());
    assert_eq!(engine.handle_key(F, false, 20_000), vec![SinkCall::KeyUp(F)]);
}

#[test]
fn scratch_key_under_ignore_is_tapped_for_100_ms() {
    let mut engine = ScratchEngine::new();

    assert_eq!(engine.handle_key(A, true, 0), vec![SinkCall::KeyDown(A)]);
    assert_eq!(
        engine.handle_key(R, true, 50),
        vec![
            SinkCall::KeyUp(R),
            SinkCall::KeyUp(F),
            SinkCall::KeyDown(R)
        ]
    );
    assert!(engine.release_due_scratch_keys(149).is_empty());
    assert_eq!(engine.release_due_scratch_keys(150), vec![SinkCall::KeyUp(R)]);
    assert!(engine.release_due_scratch_keys(151).is_empty());
}

#[test]
fn press_under_ignore_drops_both_deadlines() {
    let mut engine = ScratchEngine::new();
    engine.handle_key(A, true, 0);
    engine.handle_key(F, true, 10);
    engine.handle_key(R, true, 20);

    assert_eq!(
        engine.handle_key(S, true, 30),
        vec![
            SinkCall::KeyUp(R),
            SinkCall::KeyUp(F),
            SinkCall::KeyDown(S)
        ]
    );
    assert!(engine.release_due_scratch_keys(1_000).is_empty());
}

#[test]
fn release_of_the_ignore_key_ends_the_modifier() {
    let mut engine = ScratchEngine::new();
    engine.handle_key(A, true, 0);

    assert_eq!(engine.handle_key(A, false, 10), vec![SinkCall::KeyUp(A)]);
    assert_eq!(engine.handle_key(F, true, 20), vec![SinkCall::KeyDown(F)]);
    assert!(engine.release_due_scratch_keys(1_000).is_empty());
}

#[test]
fn release_of_a_scratch_key_drops_its_deadline() {
    let mut engine = ScratchEngine::new();
    engine.handle_key(A, true, 0);
    engine.handle_key(F, true, 10);

    assert_eq!(engine.handle_key(F, false, 20), vec![SinkCall::KeyUp(F)]);
    assert!(engine.release_due_scratch_keys(1_000).is_empty());
}
