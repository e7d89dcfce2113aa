use ps2iidx_controller::outputs::x360::X360Output;
use ps2iidx_controller::sink::{GamepadState, SinkCall};
use ps2iidx_controller::types::{
    ButtonEvent, ButtonTable, DpadDirection, OutputAdapter, OutputType, TriggerName,
    X360ButtonEntry, X360ButtonName, X360Mapping,
};

fn mapping() -> X360Mapping {
    let mut buttons = ButtonTable::new();
    buttons.insert(
        "0".to_string(),
        X360ButtonEntry::Button {
            name: X360ButtonName::A,
        },
    );
    buttons.insert(
        "1".to_string(),
        X360ButtonEntry::Button {
            name: X360ButtonName::Start,
        },
    );
    buttons.insert(
        "2".to_string(),
        X360ButtonEntry::Trigger {
            trigger: TriggerName::Left,
        },
    );
    buttons.insert(
        "3".to_string(),
        X360ButtonEntry::Trigger {
            trigger: TriggerName::Right,
        },
    );
    buttons.insert(
        "10".to_string(),
        X360ButtonEntry::Dpad {
            direction: DpadDirection::Up,
        },
    );
    buttons.insert(
        "11".to_string(),
        X360ButtonEntry::Dpad {
            direction: DpadDirection::Down,
        },
    );
    buttons.insert(
        "12".to_string(),
        X360ButtonEntry::Dpad {
            direction: DpadDirection::Left,
        },
    );
    buttons.insert(
        "13".to_string(),
        X360ButtonEntry::Dpad {
            direction: DpadDirection::Right,
        },
    );
    X360Mapping {
        name: Some("pad".to_string()),
        output: OutputType::X360,
        buttons,
    }
}

fn press(id: u8) -> ButtonEvent {
    ButtonEvent { id, pressed: true }
}

fn release(id: u8) -> ButtonEvent {
    ButtonEvent { id, pressed: false }
}

fn axes(engine: &mut X360Output, event: ButtonEvent) -> (i16, i16) {
    let calls = engine.handle_button(&event, 0);
    assert_eq!(calls.len(), 1);
    match calls[0] {
        SinkCall::Update(state) => {
            assert_eq!(state, engine.gamepad());
            (state.thumb_lx, state.thumb_ly)
        }
        other => panic!("expected an update, got {:?}", other),
    }
}

#[test]
fn dpad_up_then_left_then_release() {
    let mut engine = X360Output::new(mapping(), 0, false);

    assert_eq!(axes(&mut engine, press(10)), (0, 32767));
    assert_eq!(axes(&mut engine, press(12)), (-32768, 32767));
    assert_eq!(axes(&mut engine, release(10)), (-32768, 0));
    assert_eq!(axes(&mut engine, release(12)), (0, 0));
}

#[test]
fn dpad_right_and_down() {
    let mut engine = X360Output::new(mapping(), 0, false);

    assert_eq!(axes(&mut engine, press(13)), (32767, 0));
    assert_eq!(axes(&mut engine, press(11)), (32767, -32768));
    assert_eq!(axes(&mut engine, release(13)), (0, -32768));
    assert_eq!(axes(&mut engine, release(11)), (0, 0));
}

#[test]
fn dpad_left_and_right_together_centre_and_up_wins_over_down() {
    let mut engine = X360Output::new(mapping(), 0, false);

    assert_eq!(axes(&mut engine, press(13)), (32767, 0));
    assert_eq!(axes(&mut engine, press(12)), (0, 0));
    assert_eq!(axes(&mut engine, press(11)), (0, -32768));
    assert_eq!(axes(&mut engine, press(10)), (0, 32767));
    assert_eq!(axes(&mut engine, release(12)), (32767, 32767));
    assert_eq!(axes(&mut engine, release(10)), (32767, -32768));
}

#[test]
fn dpad_left_then_right_is_centred() {
    let mut engine = X360Output::new(mapping(), 0, false);

    assert_eq!(axes(&mut engine, press(12)), (-32768, 0));
    assert_eq!(axes(&mut engine, press(13)), (0, 0));
    assert_eq!(axes(&mut engine, release(12)), (32767, 0));
    assert_eq!(axes(&mut engine, press(12)), (0, 0));
    assert_eq!(axes(&mut engine, release(13)), (-32768, 0));
    assert_eq!(axes(&mut engine, release(12)), (0, 0));
}

#[test]
fn buttons_set_and_clear_their_bits() {
    let mut engine = X360Output::new(mapping(), 0, false);

    assert_eq!(
        engine.handle_button(&press(0), 0),
        vec![SinkCall::Update(GamepadState {
            buttons: 0x1000,
            ..GamepadState::neutral()
        })]
    );
    assert_eq!(
        engine.handle_button(&press(1), 0),
        vec![SinkCall::Update(GamepadState {
            buttons: 0x1010,
            ..GamepadState::neutral()
        })]
    );
    assert_eq!(
        engine.handle_button(&release(0), 0),
        vec![SinkCall::Update(GamepadState {
            buttons: 0x0010,
            ..GamepadState::neutral()
        })]
    );
    assert_eq!(
        engine.handle_button(&release(0), 0),
        vec![SinkCall::Update(GamepadState {
            buttons: 0x0010,
            ..GamepadState::neutral()
        })]
    );
    assert_eq!(
        engine.handle_button(&release(1), 0),
        vec![SinkCall::Update(GamepadState::neutral())]
    );
}

#[test]
fn every_button_has_its_bit() {
    let flags = [
        (X360ButtonName::Start, 0x0010u16),
        (X360ButtonName::Back, 0x0020),
        (X360ButtonName::LeftThumb, 0x0040),
        (X360ButtonName::RightThumb, 0x0080),
        (X360ButtonName::LeftShoulder, 0x0100),
        (X360ButtonName::RightShoulder, 0x0200),
        (X360ButtonName::Guide, 0x0400),
        (X360ButtonName::A, 0x1000),
        (X360ButtonName::B, 0x2000),
        (X360ButtonName::X, 0x4000),
        (X360ButtonName::Y, 0x8000),
    ];
    for (name, flag) in flags {
        assert_eq!(X360Output::resolve_button_flag(&name), flag);
    }
}

#[test]
fn triggers_go_to_their_extremes() {
    let mut engine = X360Output::new(mapping(), 0, false);

    engine.handle_button(&press(2), 0);
    assert_eq!(engine.gamepad().left_trigger, 255);
    assert_eq!(engine.gamepad().right_trigger, 0);
    engine.handle_button(&press(3), 0);
    assert_eq!(engine.gamepad().right_trigger, 255);
    engine.handle_button(&release(2), 0);
    assert_eq!(engine.gamepad().left_trigger, 0);
    assert_eq!(engine.gamepad().right_trigger, 255);
    assert_eq!(
        engine.handle_button(&release(3), 0),
        vec![SinkCall::Update(GamepadState::neutral())]
    );
}

#[test]
fn unknown_button_of_the_gamepad_is_passed_over() {
    let mut engine = X360Output::new(mapping(), 9, false);

    assert!(engine.handle_button(&press(99), 0).is_empty());
    assert_eq!(engine.gamepad(), GamepadState::neutral());
}

#[test]
fn every_push_waits_for_the_offset() {
    let mut engine = X360Output::new(mapping(), 9, true);

    assert!(engine.debug());
    assert_eq!(
        engine.handle_button(&press(0), 0),
        vec![
            SinkCall::Delay(9),
            SinkCall::Update(GamepadState {
                buttons: 0x1000,
                ..GamepadState::neutral()
            })
        ]
    );
}

#[test]
fn parts_of_the_state_do_not_disturb_each_other() {
    let mut engine = X360Output::new(mapping(), 0, false);
    engine.handle_button(&press(0), 0);
    engine.handle_button(&press(2), 0);
    engine.handle_button(&press(12), 0);

    assert_eq!(
        engine.gamepad(),
        GamepadState {
            buttons: 0x1000,
            left_trigger: 255,
            right_trigger: 0,
            thumb_lx: -32768,
            thumb_ly: 0,
            thumb_rx: 0,
            thumb_ry: 0,
        }
    );
}

#[test]
fn shutdown_pushes_the_neutral_state_and_unplugs() {
    let mut engine = X360Output::new(mapping(), 9, false);
    engine.handle_button(&press(0), 0);
    engine.handle_button(&press(10), 0);

    assert_eq!(
        engine.shutdown(),
        vec![SinkCall::Update(GamepadState::neutral()), SinkCall::Unplug]
    );
    assert_eq!(engine.gamepad(), GamepadState::neutral());
}
