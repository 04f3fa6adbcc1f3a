//! How the element answers what it receives.

use std::collections::HashMap;

use tttocea608::caption::{Cea608Mode, Chunk, Line, Lines, TextStyle};
use tttocea608::clock::{CcBuffer, Framerate};
use tttocea608::code::{Code, ControlCommand, PADDING};
use tttocea608::compose::Notice;
use tttocea608::element::{
    buffer_times, ChainError, Settings, SinkAction, SinkEvent, State, StateChange, TtToCea608,
};

const SEC: u64 = 1_000_000_000;
const FILL: Code = Code::Word(PADDING);
const ERASE: Code = Code::Control(ControlCommand::EraseDisplayMemory);

fn words() -> HashMap<u32, u16> {
    let mut table: HashMap<u32, u16> = HashMap::new();
    for c in ' '..='~' {
        table.insert(c as u32, ((c as u16) << 8) | 0x80);
    }
    table
}

fn started(mode: Cea608Mode) -> TtToCea608 {
    let mut element = TtToCea608::new();
    element.set_property(mode);
    element.begin_state_change(StateChange::ReadyToPaused);
    element
}

fn codes(out: &Vec<CcBuffer>) -> Vec<Code> {
    out.iter().map(|b| b.code).collect()
}

fn text(element: &mut TtToCea608, pts: u64, duration: u64, data: &str) -> Result<Vec<CcBuffer>, ChainError> {
    element.sink_chain(Some(pts), Some(duration), data.as_bytes(), None, &words()).map(|out| out.buffers)
}

fn sent(action: SinkAction) -> Vec<CcBuffer> {
    match action {
        SinkAction::Send(out) => out,
        SinkAction::SendThenForward(out) => out,
        _ => panic!("nothing was sent"),
    }
}

fn single(column: Option<u32>, text: &str) -> Lines {
    Lines {
        lines: vec![Line {
            column,
            row: Some(3),
            chunks: vec![Chunk { style: TextStyle::White, underline: false, text: text.to_string() }],
            carriage_return: None,
        }],
        mode: None,
        clear: None,
    }
}

#[test]
fn defaults() {
    assert_eq!(Settings::default(), Settings { mode: Cea608Mode::RollUp2 });
    let state = State::default();
    assert_eq!(state.settings, Settings::default());
    assert_eq!(state.clock.framerate, Framerate { numer: 30, denom: 1 });
    assert_eq!(state.clock.erase_display_frame_no, None);
    assert_eq!(state.clock.last_frame_no, 0);
    assert_eq!(state.clock.max_frame_no, 0);
    assert_eq!(state.pen.mode, Cea608Mode::PopOn);
    assert!(!state.pen.send_roll_up_preamble && !state.json_input && !state.pen.underline);
    assert_eq!(state.pen.style, TextStyle::White);
    assert_eq!(state.column, 0);
    assert_eq!(TtToCea608::new().get_property(), Cea608Mode::RollUp2);
}

#[test]
fn pop_on_caption_and_end_of_stream() {
    let mut element = started(Cea608Mode::PopOn);
    let out = text(&mut element, SEC, SEC, "Hello").unwrap();
    assert_eq!(out.len(), 30 + 7);
    assert!(codes(&out)[..30].iter().all(|c| *c == FILL));
    assert_eq!(out[30].code, Code::Control(ControlCommand::ResumeCaptionLoading));
    assert_eq!(out[30].pts, Some(SEC));
    assert_eq!(out[36].code, Code::Control(ControlCommand::EndOfCaption));
    assert_eq!(out[36].pts, Some(1_200_000_000));
    assert_eq!(out[36].duration, Some(33_333_333));
    assert_eq!(element.state.clock.last_frame_no, 37);
    assert_eq!(element.state.clock.erase_display_frame_no, Some(67));
    assert_eq!(element.state.column, 5);

    let action = element.sink_event(SinkEvent::Eos);
    assert!(matches!(action, SinkAction::SendThenForward(_)));
    let out = sent(action);
    assert_eq!(out.len(), 30);
    assert_eq!(out[29].code, ERASE);
    assert_eq!(out[29].pts, Some(2_200_000_000));
    assert!(codes(&out)[..29].iter().all(|c| *c == FILL));
    assert_eq!(element.state.clock.erase_display_frame_no, None);
    assert!(matches!(element.sink_event(SinkEvent::Eos), SinkAction::Forward));
}

#[test]
fn caption_is_erased_after_its_duration_in_a_gap() {
    let mut element = started(Cea608Mode::PopOn);
    let out = text(&mut element, 0, SEC, "Hi").unwrap();
    assert_eq!(out.len(), 5);
    let out = sent(element.sink_event(SinkEvent::Gap { timestamp: Some(SEC), duration: Some(SEC) }));
    assert_eq!(out.len(), 55);
    for i in 0..55 {
        assert_eq!(out[i].code, if i + 1 == 30 { ERASE } else { FILL });
    }
    assert_eq!(element.state.clock.last_frame_no, 60);
}

#[test]
fn next_pop_on_caption_erases_the_one_before() {
    let mut element = started(Cea608Mode::PopOn);
    text(&mut element, 0, SEC, "Hi").unwrap();
    let out = text(&mut element, SEC / 2, SEC, "Hi").unwrap();
    assert_eq!(out.len(), 10 + 6);
    assert_eq!(out[10].code, ERASE);
    assert_eq!(out[11].code, Code::Control(ControlCommand::ResumeCaptionLoading));
}

#[test]
fn caption_shorter_than_a_frame_stays_scheduled() {
    let mut element = started(Cea608Mode::PopOn);
    text(&mut element, SEC, SEC / 100, "Hi").unwrap();
    let frame = element.state.clock.last_frame_no;
    assert_eq!(element.state.clock.erase_display_frame_no, Some(frame));
    assert!(sent(element.sink_event(SinkEvent::Eos)).is_empty());
    assert_eq!(element.state.clock.erase_display_frame_no, Some(frame));
}

#[test]
fn roll_up_text_goes_on() {
    let mut element = started(Cea608Mode::RollUp2);
    assert!(element.state.pen.send_roll_up_preamble);
    let out = text(&mut element, 0, SEC, "ab").unwrap();
    assert_eq!(
        codes(&out),
        vec![
            Code::Control(ControlCommand::RollUp2),
            Code::RowColumnPreamble { row: 14, col: 0, underline: false },
            Code::BasicNa { first: 0x6180, second: 0x6280 },
        ]
    );
    assert_eq!(element.state.column, 2);
    assert_eq!(element.state.clock.erase_display_frame_no, None);
    let out = text(&mut element, SEC, SEC, "c").unwrap();
    assert_eq!(out.len(), 27 + 1);
    assert_eq!(out[27].code, Code::BasicNa { first: 0x2080, second: 0x6380 });
    assert_eq!(element.state.column, 4);
}

#[test]
fn text_behind_its_time_follows_right_away() {
    let mut element = started(Cea608Mode::RollUp2);
    text(&mut element, 0, 2 * SEC, "a longer text that takes a while").unwrap();
    let last = element.state.clock.last_frame_no;
    let out = text(&mut element, 0, 2 * SEC, "x").unwrap();
    assert_eq!(out.len(), 1);
    assert_eq!(element.state.clock.last_frame_no, last + 1);
}

#[test]
fn buffer_without_times_is_refused() {
    let mut element = started(Cea608Mode::PopOn);
    let before = element;
    assert_eq!(element.sink_chain(None, None, b"a", None, &words()), Err(ChainError::NoTimestamp));
    assert_eq!(element.sink_chain(Some(0), None, b"a", None, &words()), Err(ChainError::NoDuration));
    assert_eq!(element, before);
}

#[test]
fn text_that_is_not_utf8_is_refused() {
    let mut element = started(Cea608Mode::PopOn);
    assert_eq!(
        element.sink_chain(Some(0), Some(SEC), &[0x61, 0xff], None, &words()),
        Err(ChainError::NotUtf8)
    );
    assert_eq!(
        element.sink_chain(Some(0), Some(SEC), &[0xed, 0xa0, 0x80], None, &words()),
        Err(ChainError::NotUtf8)
    );
    assert!(element.sink_chain(Some(0), Some(SEC), "ü€😀".as_bytes(), None, &words()).is_ok());
}

#[test]
fn more_phrases_than_rows_are_refused() {
    let mut element = started(Cea608Mode::PopOn);
    assert_eq!(text(&mut element, 0, SEC, &"\n".repeat(15)), Err(ChainError::TooManyPhrases));
    assert!(text(&mut element, 0, SEC, &"\n".repeat(14)).is_ok());
}

#[test]
fn times_out_of_range_are_refused() {
    let mut element = started(Cea608Mode::PopOn);
    let before = element;
    assert_eq!(text(&mut element, u64::MAX, 1, "a"), Err(ChainError::OutOfRange));
    assert_eq!(text(&mut element, u64::MAX / 2, 1, "a"), Err(ChainError::OutOfRange));
    assert_eq!(element, before);
}

#[test]
fn json_input_is_taken_as_read() {
    let mut element = started(Cea608Mode::PopOn);
    let action = element.sink_event(SinkEvent::Caps {
        framerate: Some(Framerate { numer: 25, denom: 1 }),
        media_type: "application/x-json".to_string(),
    });
    assert!(matches!(action, SinkAction::SendCaps));
    assert!(element.state.json_input);
    assert_eq!(
        element.sink_chain(Some(0), Some(SEC), b"{", None, &words()),
        Err(ChainError::NotJson)
    );
    let out = element.sink_chain(Some(0), Some(SEC), b"{}", Some(single(Some(4), "a")), &words()).unwrap().buffers;
    assert_eq!(out[2].code, Code::RowColumnPreamble { row: 3, col: 4, underline: false });
    assert_eq!(out[1].pts, Some(40_000_000));
    assert_eq!(
        element.sink_chain(Some(SEC), Some(SEC), b"{}", Some(single(Some(u32::MAX), "a")), &words()),
        Err(ChainError::OutOfRange)
    );
}

#[test]
fn caps_set_the_format() {
    let mut element = started(Cea608Mode::PopOn);
    let before = element;
    let refused = element.sink_event(SinkEvent::Caps { framerate: None, media_type: "text/x-raw".to_string() });
    assert!(matches!(refused, SinkAction::Refuse));
    assert_eq!(element, before);
    let rate = Framerate { numer: 60, denom: 1 };
    element.sink_event(SinkEvent::Caps { framerate: Some(rate), media_type: "text/x-raw".to_string() });
    assert!(!element.state.json_input);
    assert_eq!(element.state.clock.framerate, rate);
}

#[test]
fn gap_without_times_is_refused() {
    let mut element = started(Cea608Mode::PopOn);
    let before = element;
    for (timestamp, duration) in [
        (None, Some(1)),
        (Some(1), None),
        (Some(u64::MAX), Some(1)),
        (Some(u64::MAX), Some(0)),
    ] {
        let action = element.sink_event(SinkEvent::Gap { timestamp, duration });
        assert!(matches!(action, SinkAction::Refuse));
        assert_eq!(element, before);
    }
}

#[test]
fn erasure_on_the_first_frame_cannot_be_padded_to() {
    let mut element = started(Cea608Mode::PopOn);
    text(&mut element, 0, 0, "a").unwrap();
    assert_eq!(element.state.clock.erase_display_frame_no, Some(0));
    assert!(sent(element.sink_event(SinkEvent::Eos)).is_empty());
    let gap = SinkEvent::Gap { timestamp: Some(0), duration: Some(SEC) };
    assert!(matches!(element.sink_event(gap), SinkAction::Refuse));
    assert_eq!(text(&mut element, SEC, SEC, "b"), Err(ChainError::OutOfRange));
    let out = text(&mut element, 0, SEC, "b").unwrap();
    assert_eq!(out[0].code, ERASE);
}

#[test]
fn flush_starts_anew() {
    let mut element = started(Cea608Mode::RollUp3);
    let fresh = element;
    text(&mut element, 0, SEC, "abc").unwrap();
    assert_ne!(element, fresh);
    assert!(matches!(element.sink_event(SinkEvent::FlushStop), SinkAction::Forward));
    assert_eq!(element, fresh);
    assert!(matches!(element.sink_event(SinkEvent::Other), SinkAction::Forward));
    assert_eq!(element, fresh);
}

#[test]
fn state_changes() {
    let mut element = started(Cea608Mode::RollUp4);
    assert_eq!(element.state.pen.mode, Cea608Mode::RollUp4);
    assert_eq!(element.state.settings.mode, Cea608Mode::RollUp4);
    let running = element;
    element.begin_state_change(StateChange::PausedToReady);
    element.end_state_change(StateChange::ReadyToPaused);
    element.begin_state_change(StateChange::Other);
    element.end_state_change(StateChange::Other);
    assert_eq!(element, running);
    element.end_state_change(StateChange::PausedToReady);
    assert_eq!(element.state, State::default());
    assert_eq!(element.get_property(), Cea608Mode::RollUp4);
}

#[test]
fn changed_mode_takes_effect_on_restart() {
    let mut element = started(Cea608Mode::RollUp2);
    element.set_property(Cea608Mode::PopOn);
    assert_eq!(element.state.pen.mode, Cea608Mode::RollUp2);
    element.sink_event(SinkEvent::FlushStop);
    assert_eq!(element.state.pen.mode, Cea608Mode::PopOn);
    assert!(!element.state.pen.send_roll_up_preamble);
}

#[test]
fn generate_on_a_state() {
    let mut state = started(Cea608Mode::PopOn).state;
    let mut other = state;
    let out = state.generate(0, SEC, &single(None, "a"), &words());
    assert_eq!(out.buffers.len(), 5);
    assert_eq!((out.notices.len(), out.crowded), (0, 0));
    assert_eq!(other.try_generate(0, SEC, &single(None, "a"), &words()), Some(out));
    assert_eq!(state, other);
}

#[test]
fn plain_text_is_sent_in_every_mode() {
    let input = "one two\nthree\n\n14th row";
    let expected: Vec<u16> = "onetwothree14throw".chars().map(|c| ((c as u16) << 8) | 0x80).collect();
    for mode in [Cea608Mode::PopOn, Cea608Mode::RollUp2, Cea608Mode::RollUp3, Cea608Mode::RollUp4] {
        let mut element = started(mode);
        let mut marks: Vec<u16> = Vec::new();
        for code in codes(&text(&mut element, 0, 10 * SEC, input).unwrap()) {
            match code {
                Code::Word(w) => marks.push(w),
                Code::BasicNa { first, second } => {
                    marks.push(first);
                    marks.push(second);
                }
                _ => {}
            }
        }
        marks.retain(|w| *w != 0x2080);
        assert_eq!(marks, expected);
    }
}

#[test]
fn buffers_keep_to_their_time() {
    let mut element = started(Cea608Mode::RollUp2);
    text(&mut element, 0, SEC / 10, "more text than three frames can hold").unwrap();
    assert_eq!(element.state.clock.last_frame_no, 3);
    text(&mut element, 0, SEC / 30, "x").unwrap();
    assert_eq!(element.state.clock.last_frame_no, 3);
}

#[test]
fn erasure_has_a_frame_to_go_on() {
    let mut element = started(Cea608Mode::PopOn);
    text(&mut element, 0, SEC / 10, "a").unwrap();
    assert_eq!(element.state.clock.erase_display_frame_no, Some(6));
}

#[test]
fn buffer_has_to_have_both_times() {
    assert_eq!(buffer_times(None, Some(1)), Err(ChainError::NoTimestamp));
    assert_eq!(buffer_times(None, None), Err(ChainError::NoTimestamp));
    assert_eq!(buffer_times(Some(1), None), Err(ChainError::NoDuration));
    assert_eq!(buffer_times(Some(1), Some(2)), Ok((1, 2)));
}

#[test]
fn output_says_what_is_not_sent_as_it_stands() {
    let mut element = started(Cea608Mode::PopOn);
    let data = format!("漢\n{}", "x".repeat(40));
    let out = element.sink_chain(Some(SEC), Some(SEC / 10), data.as_bytes(), None, &words()).unwrap();
    assert_eq!(out.notices, vec![Notice::NotTranslated('漢'), Notice::RowFull('x')]);
    let text = 2 + 1 + 1 + 1 + 16 + 1;
    assert_eq!(out.buffers.len(), 30 + text);
    assert_eq!(out.crowded, text - 3);
    for i in 0..out.buffers.len() {
        assert_eq!(out.buffers[i].duration == Some(0), i >= 30 + 3);
    }
}

#[test]
fn text_behind_the_end_of_its_buffer_is_all_crowded() {
    let mut element = started(Cea608Mode::RollUp2);
    text(&mut element, 0, SEC, "abcdef").unwrap();
    let out = element.sink_chain(Some(0), Some(0), b"gh", None, &words()).unwrap();
    assert_eq!(out.crowded, out.buffers.len());
    assert_eq!(out.buffers.len(), 2);
}

#[test]
fn buffer_sets_the_mode_and_the_erasure() {
    let mut state = started(Cea608Mode::PopOn).state;
    let mut lines = single(None, "ab");
    state.generate(SEC, SEC / 2, &lines, &words());
    assert_eq!(state.clock.last_frame_no, 30 + 5);
    assert_eq!(state.clock.erase_display_frame_no, Some(35 + 15));
    lines.mode = Some(Cea608Mode::RollUp4);
    let out = state.generate(SEC, SEC, &lines, &words());
    assert_eq!(out.buffers[0].code, ERASE);
    assert_eq!(state.pen.mode, Cea608Mode::RollUp4);
    assert_eq!(state.clock.erase_display_frame_no, None);
}

#[test]
fn spelling_leaves_the_buffer() {
    for mode in [Cea608Mode::PopOn, Cea608Mode::RollUp2] {
        let mut odd = started(mode);
        let mut plain = started(mode);
        let a = text(&mut odd, SEC, SEC, "\rone\r漢two\nthree\r").unwrap();
        let b = text(&mut plain, SEC, SEC, "one two\nthree").unwrap();
        assert_eq!(a, b);
        assert_eq!(odd, plain);
    }
}

#[test]
fn erasure_that_padding_sends_is_not_sent_again() {
    let mut element = started(Cea608Mode::PopOn);
    text(&mut element, 0, SEC / 2, "Hi").unwrap();
    let due = element.state.clock.erase_display_frame_no.unwrap();
    let out = text(&mut element, SEC, SEC, "Hi").unwrap();
    let erasures: Vec<usize> = (0..out.len()).filter(|i| out[*i].code == ERASE).collect();
    assert_eq!(erasures, vec![due as usize - 1 - 5]);
}
