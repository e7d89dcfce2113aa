//! The wire protocol of the controller board and the decisions of the event
//! loop that reads it.
//!
//! A line `b:<id>:<state>` reports that button `<id>` was pressed (`1`) or
//! released (`0`). Every other line is noise and is dropped.

use crate::text::{
    all_digits, chars_are, chars_of, decimal_text, decimal_value, first_index,
    lemma_decimal_text_value, lemma_first_index_is, parse_decimal, parse_unsigned, split,
    split_text, texts, trim, trim_text, without_plus,
};
use crate::types::ButtonEvent;
use vstd::prelude::*;
use vstd::string::*;

verus! {

/// How to open the serial source.
pub struct SerialOptions {
    pub path: String,
    pub baud_rate: u32,
    pub debug: bool,
}

/// What the event loop hands to its handler.
#[derive(Debug, Clone, Copy, PartialEq, Eq, Structural)]
pub enum SerialEvent {
    /// A valid button event was received.
    Button(ButtonEvent),
    /// Sent on every iteration, before the read, for housekeeping.
    Tick,
}

/// The greatest button id of the protocol.
pub const MAX_BUTTON_ID: u64 = 255;

/// The two state tokens: `0` for a release and `1` for a press.
pub open spec fn is_state_token(field: Seq<char>) -> bool {
    field == seq!['0'] || field == seq!['1']
}

/// The event that a line denotes, if it is well formed: exactly three
/// fields between colons, of which the first is `b`, the second a decimal
/// number of at most 255 and the third a state token.
pub open spec fn decode(line: Seq<char>) -> Option<ButtonEvent> {
    let fields = split(line, ':');
    if fields.len() == 3 && fields[0] == seq!['b'] && is_state_token(fields[2]) {
        match parse_unsigned(fields[1], MAX_BUTTON_ID as nat) {
            Some(id) => Some(ButtonEvent { id: id as u8, pressed: fields[2] == seq!['1'] }),
            None => None,
        }
    } else {
        None
    }
}

/// A line that is malformed in any way denotes no event.
pub proof fn lemma_malformed_line_decodes_to_nothing(line: Seq<char>)
    requires
        ({
            let fields = split(line, ':');
            ||| fields.len() != 3
            ||| fields[0] != seq!['b']
            ||| !all_digits(without_plus(fields[1]))
            ||| decimal_value(without_plus(fields[1])) > 255
            ||| !is_state_token(fields[2])
        }),
    ensures
        decode(line) is None,
{
}

/// The line `b:<id>:<state>` denotes the button that its number names,
/// pressed exactly if its state is `1`.
pub proof fn lemma_well_formed_line_decodes(number: Seq<char>, state: char)
    requires
        parse_unsigned(number, 255) is Some,
        state == '0' || state == '1',
    ensures
        decode(seq!['b', ':'] + number + seq![':', state]) == Some(
            ButtonEvent {
                id: parse_unsigned(number, 255).unwrap() as u8,
                pressed: state == '1',
            },
        ),
{
    let line = seq!['b', ':'] + number + seq![':', state];
    let tail = number + seq![':', state];
    assert forall|j: int| 0 <= j < number.len() implies number[j] != ':' by {
        if number[0] == '+' {
            if j > 0 {
                assert(without_plus(number)[j - 1] == number[j]);
            }
        } else {
            assert(without_plus(number)[j] == number[j]);
        }
    }
    lemma_first_index_is(line, ':', 1);
    assert(line.take(1) == seq!['b']);
    assert(line.skip(2) == tail);
    lemma_first_index_is(tail, ':', number.len() as int);
    assert(tail.take(number.len() as int) == number);
    assert(tail.skip(number.len() as int + 1) == seq![state]);
    lemma_first_index_is(seq![state], ':', 1);
    assert(split(seq![state], ':') == seq![seq![state]]);
    assert(split(tail, ':') == seq![number] + seq![seq![state]]);
    assert(split(line, ':') == seq![seq!['b']] + (seq![number] + seq![seq![state]]));
    assert(split(line, ':') == seq![seq!['b'], number, seq![state]]);
    assert(seq!['0'][0] != seq!['1'][0]);
}

/// Every button id in its shortest decimal form, between `b:` and a state,
/// is a line that denotes that button.
pub proof fn lemma_line_of_id_decodes(id: u8, pressed: bool)
    ensures
        decode(
            seq!['b', ':'] + decimal_text(id as nat) + seq![
                ':',
                if pressed {
                    '1'
                } else {
                    '0'
                },
            ],
        ) == Some(ButtonEvent { id, pressed }),
{
    lemma_decimal_text_value(id as nat);
    lemma_well_formed_line_decodes(
        decimal_text(id as nat),
        if pressed {
            '1'
        } else {
            '0'
        },
    );
}

/// Decodes one line, without its line terminator, into the button event
/// that it denotes. A line that denotes none yields `None`.
pub fn decode_line(line: &str) -> (r: Option<ButtonEvent>)
    ensures
        r == decode(line@),
{
    let parts = split_text(line, ':');
    assert(parts@.len() == texts(parts@).len());
    if parts.len() != 3 {
        return None;
    }
    assert(texts(parts@)[0] == parts@[0]@);
    assert(texts(parts@)[1] == parts@[1]@);
    assert(texts(parts@)[2] == parts@[2]@);
    proof {
        reveal_strlit("b");
        reveal_strlit("0");
        reveal_strlit("1");
        assert("b"@ =~= seq!['b']);
        assert("0"@ =~= seq!['0']);
        assert("1"@ =~= seq!['1']);
    }
    let tag = chars_of(parts[0]);
    if !chars_are(&tag, "b") {
        return None;
    }
    let state = chars_of(parts[2]);
    let pressed = chars_are(&state, "1");
    if !pressed && !chars_are(&state, "0") {
        return None;
    }
    match parse_decimal(parts[1], MAX_BUTTON_ID) {
        Some(id) => Some(ButtonEvent { id: id as u8, pressed }),
        None => None,
    }
}

/// How the event loop classes one line that it has read.
#[derive(Debug, Clone, Copy, PartialEq, Eq, Structural)]
pub enum LineClass {
    /// Nothing but whitespace.
    Blank,
    /// Not of the shape `b:..:..`.
    Ignored,
    /// Of that shape, with a bad button id or a bad state.
    Invalid,
    /// A button event.
    Event(ButtonEvent),
}

/// The class of a line as read, with its terminator and other whitespace
/// at both ends still on it.
pub open spec fn classify(raw: Seq<char>) -> LineClass {
    let line = trim(raw);
    let fields = split(line, ':');
    if line.len() == 0 {
        LineClass::Blank
    } else if fields.len() != 3 || fields[0] != seq!['b'] {
        LineClass::Ignored
    } else {
        match decode(line) {
            Some(event) => LineClass::Event(event),
            None => LineClass::Invalid,
        }
    }
}

/// A line is classed as an event exactly when, trimmed, it denotes one.
pub proof fn lemma_classify_follows_decode(raw: Seq<char>)
    ensures
        match classify(raw) {
            LineClass::Event(event) => decode(trim(raw)) == Some(event),
            _ => decode(trim(raw)) is None,
        },
{
    let line = trim(raw);
    if line.len() == 0 {
        assert(first_index(line, ':') == 0);
        assert(split(line, ':') == seq![line]);
    }
}

/// Classes one line as read from the serial source.
pub fn classify_line(raw: &str) -> (r: LineClass)
    ensures
        r == classify(raw@),
{
    let line = trim_text(raw);
    let chars = chars_of(line);
    if chars.len() == 0 {
        return LineClass::Blank;
    }
    let parts = split_text(line, ':');
    assert(parts@.len() == texts(parts@).len());
    if parts.len() != 3 {
        return LineClass::Ignored;
    }
    assert(texts(parts@)[0] == parts@[0]@);
    proof {
        reveal_strlit("b");
        assert("b"@ =~= seq!['b']);
    }
    let tag = chars_of(parts[0]);
    if !chars_are(&tag, "b") {
        return LineClass::Ignored;
    }
    match decode_line(line) {
        Some(event) => LineClass::Event(event),
        None => LineClass::Invalid,
    }
}

/// What one bounded read of the serial source gave.
#[derive(Debug, Clone, PartialEq, Eq)]
pub enum ReadOutcome {
    /// The source is closed: the read gave no bytes.
    Closed,
    /// A line, with its terminator.
    Line(String),
    /// Nothing arrived within the read timeout.
    TimedOut,
    /// The read failed for another reason, described by the text.
    Failed(String),
}

/// What the event loop does after a read.
#[derive(Debug, Clone, PartialEq, Eq)]
pub enum LoopStep {
    /// Leave the loop: the run is over.
    Stop,
    /// Read again.
    Continue,
    /// Read again; the line read was noise of the given class.
    Drop(LineClass),
    /// Hand the event to the active engine, then read again.
    Dispatch(ButtonEvent),
    /// Leave the loop with this error.
    Fail(String),
}

/// The view of a loop step, with the text of an error as characters.
pub enum LoopStepView {
    Stop,
    Continue,
    Drop(LineClass),
    Dispatch(ButtonEvent),
    Fail(Seq<char>),
}

impl View for LoopStep {
    type V = LoopStepView;

    open spec fn view(&self) -> LoopStepView {
        match self {
            LoopStep::Stop => LoopStepView::Stop,
            LoopStep::Continue => LoopStepView::Continue,
            LoopStep::Drop(class) => LoopStepView::Drop(*class),
            LoopStep::Dispatch(event) => LoopStepView::Dispatch(*event),
            LoopStep::Fail(message) => LoopStepView::Fail(message@),
        }
    }
}

/// The step that follows a read: a closed source ends the run, a timeout
/// and a blank line are passed over in silence, noise is dropped, an event
/// is dispatched, and any other failure of the read ends the run with an
/// error that quotes what the read reported.
pub open spec fn step_after(outcome: ReadOutcome) -> LoopStepView {
    match outcome {
        ReadOutcome::Closed => LoopStepView::Stop,
        ReadOutcome::TimedOut => LoopStepView::Continue,
        ReadOutcome::Failed(detail) => LoopStepView::Fail(
            "Error reading from serial port: "@ + detail@,
        ),
        ReadOutcome::Line(raw) => match classify(raw@) {
            LineClass::Blank => LoopStepView::Continue,
            LineClass::Event(event) => LoopStepView::Dispatch(event),
            class => LoopStepView::Drop(class),
        },
    }
}

/// Decides what the event loop does after a read.
pub fn next_step(outcome: &ReadOutcome) -> (step: LoopStep)
    ensures
        step@ == step_after(*outcome),
{
    match outcome {
        ReadOutcome::Closed => LoopStep::Stop,
        ReadOutcome::TimedOut => LoopStep::Continue,
        ReadOutcome::Failed(detail) => {
            let mut message = "Error reading from serial port: ".to_owned();
            message.append(detail.as_str());
            LoopStep::Fail(message)
        },
        ReadOutcome::Line(raw) => {
            let class = classify_line(raw.as_str());
            match class {
                LineClass::Blank => LoopStep::Continue,
                LineClass::Event(event) => LoopStep::Dispatch(event),
                _ => LoopStep::Drop(class),
            }
        },
    }
}

} // verus!
