use ps2iidx_controller::serial::{
    classify_line, decode_line, next_step, LineClass, LoopStep, ReadOutcome,
};
use ps2iidx_controller::types::ButtonEvent;

fn event(id: u8, pressed: bool) -> Option<ButtonEvent> {
    Some(ButtonEvent { id, pressed })
}

#[test]
fn press_and_release_decode() {
    assert_eq!(decode_line("b:0:1"), event(0, true));
    assert_eq!(decode_line("b:0:0"), event(0, false));
    assert_eq!(decode_line("b:6:1"), event(6, true));
    assert_eq!(decode_line("b:15:0"), event(15, false));
}

#[test]
fn every_id_decodes_in_both_states() {
    for id in 0..=255u8 {
        assert_eq!(decode_line(&format!("b:{}:1", id)), event(id, true));
        assert_eq!(decode_line(&format!("b:{}:0", id)), event(id, false));
    }
}

#[test]
fn greatest_id_decodes_and_the_next_does_not() {
    assert_eq!(decode_line("b:255:1"), event(255, true));
    assert_eq!(decode_line("b:256:1"), None);
    assert_eq!(decode_line("b:1000:0"), None);
    assert_eq!(decode_line("b:99999999999999999999999999:0"), None);
}

#[test]
fn id_may_carry_zeros_and_a_plus_sign() {
    assert_eq!(decode_line("b:007:1"), event(7, true));
    assert_eq!(decode_line("b:+7:0"), event(7, false));
    assert_eq!(decode_line("b:0000000000000000000000255:1"), event(255, true));
}

#[test]
fn wrong_field_count_yields_nothing() {
    assert_eq!(decode_line(""), None);
    assert_eq!(decode_line("b"), None);
    assert_eq!(decode_line("b:1"), None);
    assert_eq!(decode_line("b:1:1:1"), None);
    assert_eq!(decode_line("b:1:1:"), None);
    assert_eq!(decode_line(":b:1:1"), None);
    assert_eq!(decode_line("::"), None);
}

#[test]
fn wrong_tag_yields_nothing() {
    assert_eq!(decode_line("a:1:1"), None);
    assert_eq!(decode_line("B:1:1"), None);
    assert_eq!(decode_line("bb:1:1"), None);
    assert_eq!(decode_line(":1:1"), None);
    assert_eq!(decode_line(" b:1:1"), None);
}

#[test]
fn non_numeric_id_yields_nothing() {
    assert_eq!(decode_line("b::1"), None);
    assert_eq!(decode_line("b:x:1"), None);
    assert_eq!(decode_line("b:1x:1"), None);
    assert_eq!(decode_line("b:-1:1"), None);
    assert_eq!(decode_line("b:+:1"), None);
    assert_eq!(decode_line("b:++1:1"), None);
    assert_eq!(decode_line("b: 1:1"), None);
    assert_eq!(decode_line("b:1.0:1"), None);
    assert_eq!(decode_line("b:0x10:1"), None);
    assert_eq!(decode_line("b:\u{0661}:1"), None);
}

#[test]
fn bad_state_yields_nothing() {
    assert_eq!(decode_line("b:1:"), None);
    assert_eq!(decode_line("b:1:2"), None);
    assert_eq!(decode_line("b:1:01"), None);
    assert_eq!(decode_line("b:1:10"), None);
    assert_eq!(decode_line("b:1:+1"), None);
    assert_eq!(decode_line("b:1:true"), None);
    assert_eq!(decode_line("b:1:1 "), None);
}

#[test]
fn line_is_trimmed_before_it_is_classed() {
    assert_eq!(
        classify_line("b:3:1\r\n"),
        LineClass::Event(ButtonEvent { id: 3, pressed: true })
    );
    assert_eq!(
        classify_line("  \tb:3:0 \n"),
        LineClass::Event(ButtonEvent { id: 3, pressed: false })
    );
    assert_eq!(
        classify_line("\u{3000}b:3:0\u{2028}"),
        LineClass::Event(ButtonEvent { id: 3, pressed: false })
    );
}

#[test]
fn blank_lines_are_classed_blank() {
    assert_eq!(classify_line(""), LineClass::Blank);
    assert_eq!(classify_line("\n"), LineClass::Blank);
    assert_eq!(classify_line(" \r\n"), LineClass::Blank);
    assert_eq!(classify_line("\u{85}\u{a0}"), LineClass::Blank);
}

#[test]
fn noise_is_told_from_bad_events() {
    assert_eq!(classify_line("hello\n"), LineClass::Ignored);
    assert_eq!(classify_line("x:1:1\n"), LineClass::Ignored);
    assert_eq!(classify_line("b:1\n"), LineClass::Ignored);
    assert_eq!(classify_line("b:1:1:1\n"), LineClass::Ignored);
    assert_eq!(classify_line("b:300:1\n"), LineClass::Invalid);
    assert_eq!(classify_line("b:x:1\n"), LineClass::Invalid);
    assert_eq!(classify_line("b:1:2\n"), LineClass::Invalid);
    assert_eq!(classify_line("b:1 :1\n"), LineClass::Invalid);
}

#[test]
fn zero_width_space_is_no_whitespace() {
    assert_eq!(classify_line("\u{200b}b:1:1"), LineClass::Ignored);
}

#[test]
fn loop_stops_when_the_source_is_closed() {
    assert_eq!(next_step(&ReadOutcome::Closed), LoopStep::Stop);
}

#[test]
fn loop_goes_on_after_a_timeout_and_a_blank_line() {
    assert_eq!(next_step(&ReadOutcome::TimedOut), LoopStep::Continue);
    assert_eq!(
        next_step(&ReadOutcome::Line("\r\n".to_string())),
        LoopStep::Continue
    );
}

#[test]
fn loop_dispatches_an_event() {
    assert_eq!(
        next_step(&ReadOutcome::Line("b:12:1\n".to_string())),
        LoopStep::Dispatch(ButtonEvent { id: 12, pressed: true })
    );
}

#[test]
fn loop_drops_noise() {
    assert_eq!(
        next_step(&ReadOutcome::Line("boot ok\n".to_string())),
        LoopStep::Drop(LineClass::Ignored)
    );
    assert_eq!(
        next_step(&ReadOutcome::Line("b:12:7\n".to_string())),
        LoopStep::Drop(LineClass::Invalid)
    );
}

#[test]
fn loop_fails_on_another_read_error() {
    assert_eq!(
        next_step(&ReadOutcome::Failed("device unplugged".to_string())),
        LoopStep::Fail("Error reading from serial port: device unplugged".to_string())
    );
}
